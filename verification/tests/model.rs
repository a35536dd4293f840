use germ::error::Error;
use germ::sequence::{Command, Sequence, DEFAULT_PROMPT, VERSION};
use germ::timings::{Field, Timings};

fn fields(timings: &Timings) -> [u64; 7] {
    [
        timings.begin(),
        timings.end(),
        timings.type_start(),
        timings.type_char(),
        timings.type_submit(),
        timings.output_line(),
        timings.speed(),
    ]
}

#[test]
fn default_timings_are_the_documented_constants() {
    assert_eq!(fields(&Timings::default()), [0, 1000, 750, 35, 350, 500, 1000]);
}

#[test]
fn timings_keep_the_values_given() {
    let timings = Timings::new(1, 2, 3, 4, 5, 6, 7).unwrap();
    assert_eq!(fields(&timings), [1, 2, 3, 4, 5, 6, 7]);
    let zeros = Timings::new(0, 0, 0, 0, 0, 0, 1).unwrap();
    assert_eq!(fields(&zeros), [0, 0, 0, 0, 0, 0, 1]);
}

#[test]
fn speed_must_be_above_zero() {
    assert_eq!(
        Timings::new(0, 0, 0, 0, 0, 0, 0),
        Err(Error::InvalidTimingValue)
    );
    assert_eq!(
        Timings::new(0, 1000, 750, 35, 350, 500, -1000),
        Err(Error::InvalidTimingValue)
    );
    assert_eq!(
        Timings::default().with(Field::Speed, 0),
        Err(Error::InvalidTimingValue)
    );
    assert_eq!(
        Timings::default().with(Field::Speed, i64::MIN),
        Err(Error::InvalidTimingValue)
    );
}

#[test]
fn delays_must_not_be_below_zero() {
    let good: [i64; 7] = [0, 1000, 750, 35, 350, 500, 1000];
    for at in 0..6 {
        let mut bad = good;
        bad[at] = -1;
        assert_eq!(
            Timings::new(bad[0], bad[1], bad[2], bad[3], bad[4], bad[5], bad[6]),
            Err(Error::InvalidTimingValue)
        );
    }
    for field in [
        Field::Begin,
        Field::End,
        Field::TypeStart,
        Field::TypeChar,
        Field::TypeSubmit,
        Field::OutputLine,
    ] {
        assert_eq!(
            Timings::default().with(field, -1),
            Err(Error::InvalidTimingValue)
        );
        assert!(Timings::default().with(field, 0).is_ok());
    }
}

#[test]
fn one_field_is_replaced_at_a_time() {
    let start = Timings::default();
    assert_eq!(
        fields(&start.with(Field::Begin, 11).unwrap()),
        [11, 1000, 750, 35, 350, 500, 1000]
    );
    assert_eq!(
        fields(&start.with(Field::End, 12).unwrap()),
        [0, 12, 750, 35, 350, 500, 1000]
    );
    assert_eq!(
        fields(&start.with(Field::TypeStart, 13).unwrap()),
        [0, 1000, 13, 35, 350, 500, 1000]
    );
    assert_eq!(
        fields(&start.with(Field::TypeChar, 14).unwrap()),
        [0, 1000, 750, 14, 350, 500, 1000]
    );
    assert_eq!(
        fields(&start.with(Field::TypeSubmit, 15).unwrap()),
        [0, 1000, 750, 35, 15, 500, 1000]
    );
    assert_eq!(
        fields(&start.with(Field::OutputLine, 16).unwrap()),
        [0, 1000, 750, 35, 350, 16, 1000]
    );
    assert_eq!(
        fields(&start.with(Field::Speed, 17).unwrap()),
        [0, 1000, 750, 35, 350, 500, 17]
    );
    assert_eq!(fields(&start), [0, 1000, 750, 35, 350, 500, 1000]);
}

#[test]
fn timings_are_made_again_from_their_values() {
    let first = Timings::new(5, 1500, 700, 30, 300, 400, 2500).unwrap();
    let again = Timings::new(
        first.begin() as i64,
        first.end() as i64,
        first.type_start() as i64,
        first.type_char() as i64,
        first.type_submit() as i64,
        first.output_line() as i64,
        first.speed() as i64,
    )
    .unwrap();
    assert_eq!(first, again);
    let most = Timings::new(
        i64::MAX,
        i64::MAX,
        i64::MAX,
        i64::MAX,
        i64::MAX,
        i64::MAX,
        i64::MAX,
    )
    .unwrap();
    assert_eq!(fields(&most), [i64::MAX as u64; 7]);
}

#[test]
fn span_is_the_sum_of_the_delays() {
    let timings = Timings::new(9, 9, 100, 7, 20, 300, 5000).unwrap();
    assert_eq!(timings.span(0, 0), Some(120));
    assert_eq!(timings.span(10, 0), Some(190));
    assert_eq!(timings.span(10, 3), Some(1090));
    assert_eq!(timings.span(u64::MAX, 0), None);
    assert_eq!(timings.span(0, u64::MAX), None);
    let edge = Timings::new(0, 0, 1, 1, 0, 0, 1000).unwrap();
    assert_eq!(edge.span(u64::MAX - 1, 7), Some(u64::MAX));
    assert_eq!(edge.span(u64::MAX, 7), None);
}

#[test]
fn command_from_input_alone() {
    let from_slice = Command::from("echo hi");
    assert_eq!(from_slice.comment(), None);
    assert_eq!(from_slice.prompt(), "$ ");
    assert_eq!(from_slice.prompt(), DEFAULT_PROMPT);
    assert_eq!(from_slice.input(), "echo hi");
    assert!(from_slice.outputs().is_empty());
    let from_string = Command::from(String::from("ls -l"));
    assert_eq!(from_string.comment(), None);
    assert_eq!(from_string.prompt(), "$ ");
    assert_eq!(from_string.input(), "ls -l");
    assert!(from_string.into_outputs().is_empty());
}

#[test]
fn command_parts_are_replaced_and_outputs_grow() {
    let mut command = Command::from("make");
    command
        .set_comment(Some("# build"))
        .set_prompt("% ")
        .add("cc main.c")
        .add("ld main.o");
    assert_eq!(command.comment(), Some("# build"));
    assert_eq!(command.prompt(), "% ");
    assert_eq!(command.input(), "make");
    assert_eq!(command.outputs(), &vec!["cc main.c", "ld main.o"]);
    let mut more = vec!["done".to_owned(), "".to_owned()];
    command.append(&mut more);
    assert!(more.is_empty());
    command.set_comment(None);
    assert_eq!(command.comment(), None);
    assert_eq!(
        command.into_outputs(),
        vec!["cc main.c", "ld main.o", "done", ""]
    );
}

#[test]
fn sequence_starts_empty_at_the_current_version() {
    let sequence = Sequence::default();
    assert_eq!(sequence.version(), 1);
    assert_eq!(sequence.version(), VERSION);
    assert_eq!(*sequence.timings(), Timings::default());
    assert!(sequence.commands().is_empty());
    assert_eq!(sequence.iter().count(), 0);
    let paced = Timings::default().with(Field::Speed, 4000).unwrap();
    let sequence = Sequence::from(paced);
    assert_eq!(sequence.version(), 1);
    assert_eq!(*sequence.timings(), paced);
    assert!(sequence.commands().is_empty());
    assert_eq!(sequence.into_timings(), paced);
}

#[test]
fn sequence_from_commands_keeps_their_order() {
    let sequence = Sequence::from(vec![Command::from("a"), Command::from("b")]);
    assert_eq!(sequence.version(), 1);
    assert_eq!(*sequence.timings(), Timings::default());
    let inputs: Vec<&str> = sequence.iter().map(|c| c.input()).collect();
    assert_eq!(inputs, vec!["a", "b"]);
}

#[test]
fn sequence_of_given_parts() {
    let paced = Timings::new(1, 2, 3, 4, 5, 6, 7).unwrap();
    let sequence = Sequence::new(9, paced, vec![Command::from("x")]);
    assert_eq!(sequence.version(), 9);
    assert_eq!(*sequence.timings(), paced);
    assert_eq!(sequence.commands().len(), 1);
    assert_eq!(sequence.commands()[0].input(), "x");
    let commands: Vec<Command> = sequence.into_iter().collect();
    assert_eq!(commands.len(), 1);
    assert_eq!(commands[0].input(), "x");
}

#[test]
fn commands_are_appended_never_reordered() {
    let mut sequence = Sequence::default();
    sequence.add(Command::from("a")).add(Command::from("b"));
    let mut more = vec![Command::from("c"), Command::from("d")];
    sequence.append(&mut more);
    assert!(more.is_empty());
    let inputs: Vec<&str> = sequence.iter().map(|c| c.input()).collect();
    assert_eq!(inputs, vec!["a", "b", "c", "d"]);
}

#[test]
fn merging_keeps_the_receivers_timings() {
    let mine = Timings::default().with(Field::Speed, 3000).unwrap();
    let theirs = Timings::new(9, 9, 9, 9, 9, 9, 9).unwrap();
    let mut sequence = Sequence::from(mine);
    sequence.add(Command::from("a"));
    let other = Sequence::new(5, theirs, vec![Command::from("b"), Command::from("c")]);
    sequence.append_from(other);
    assert_eq!(*sequence.timings(), mine);
    assert_eq!(sequence.version(), 1);
    let inputs: Vec<&str> = sequence.iter().map(|c| c.input()).collect();
    assert_eq!(inputs, vec!["a", "b", "c"]);
}

#[test]
fn errors_have_messages() {
    let all = [
        Error::InvalidTimingValue,
        Error::RecordingTooLong,
        Error::MismatchedQuotes,
        Error::EncodingFailure,
    ];
    for (i, error) in all.iter().enumerate() {
        assert!(!error.message().is_empty());
        for other in &all[i + 1..] {
            assert_ne!(error.message(), other.message());
        }
    }
    assert_eq!(Error::MismatchedQuotes.message(), "mismatched quotes");
}
