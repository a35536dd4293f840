use germ::sequence::{Command, Sequence};
use germ::termsheets;
use germ::timings::{Field, Timings};

fn noted(comment: &str, prompt: &str, input: &str, outputs: &[&str]) -> Command {
    let mut command = Command::from(input);
    command.set_comment(Some(comment)).set_prompt(prompt);
    for output in outputs {
        command.add(output);
    }
    command
}

#[test]
fn pair_keeps_input_and_outputs() {
    let pair = termsheets::Command::from(noted("# c", "> ", "ls", &["a", "b"]));
    assert_eq!(pair.input(), "ls");
    assert_eq!(pair.output(), &vec!["a", "b"]);
    let command = noted("# c", "> ", "pwd", &["/"]);
    let pair = termsheets::Command::from(&command);
    assert_eq!(pair.input(), "pwd");
    assert_eq!(pair.output(), &vec!["/"]);
    assert_eq!(command.comment(), Some("# c"));
    assert_eq!(command.outputs(), &vec!["/"]);
}

#[test]
fn pair_becomes_a_command_at_the_default_prompt() {
    let pair = termsheets::Command::new("ls".to_owned(), vec!["a".to_owned(), "b".to_owned()]);
    let command = Command::from(pair);
    assert_eq!(command.comment(), None);
    assert_eq!(command.prompt(), "$ ");
    assert_eq!(command.input(), "ls");
    assert_eq!(command.outputs(), &vec!["a", "b"]);
}

#[test]
fn pair_becomes_a_command_at_a_given_prompt() {
    let pair = termsheets::Command::new("ls".to_owned(), vec![]);
    let command = pair.into_command("# ");
    assert_eq!(command.comment(), None);
    assert_eq!(command.prompt(), "# ");
    assert_eq!(command.input(), "ls");
    assert!(command.outputs().is_empty());
}

#[test]
fn sequence_becomes_pairs_in_order() {
    let mut sequence = Sequence::default();
    sequence
        .add(noted("# one", "> ", "a", &["1"]))
        .add(noted("# two", "> ", "b", &[]));
    let borrowed: Vec<termsheets::Command> = Vec::from(&sequence);
    let exported = termsheets::export(&sequence);
    let owned: Vec<termsheets::Command> = Vec::from(sequence);
    for pairs in [&borrowed, &exported, &owned] {
        assert_eq!(pairs.len(), 2);
        assert_eq!(pairs[0].input(), "a");
        assert_eq!(pairs[0].output(), &vec!["1"]);
        assert_eq!(pairs[1].input(), "b");
        assert!(pairs[1].output().is_empty());
    }
}

#[test]
fn pairs_become_a_sequence_at_default_pacing() {
    let pairs = vec![
        termsheets::Command::new("a".to_owned(), vec!["1".to_owned()]),
        termsheets::Command::new("b".to_owned(), vec![]),
    ];
    let sequence = Sequence::from(pairs);
    assert_eq!(sequence.version(), 1);
    assert_eq!(*sequence.timings(), Timings::default());
    let commands = sequence.commands();
    assert_eq!(commands.len(), 2);
    assert_eq!(commands[0].prompt(), "$ ");
    assert_eq!(commands[0].input(), "a");
    assert_eq!(commands[0].outputs(), &vec!["1"]);
    assert_eq!(commands[1].prompt(), "$ ");
    assert_eq!(commands[1].input(), "b");
}

#[test]
fn through_pairs_and_back_drops_comment_and_prompt() {
    let timings = Timings::default().with(Field::Speed, 2000).unwrap();
    let mut sequence = Sequence::from(timings);
    sequence
        .add(noted("# first", "user@host:~$ ", "echo hi", &["hi\n"]))
        .add(noted("# second", "user@host:~$ ", "true", &[]));
    let pairs = termsheets::export(&sequence);
    let caller = Timings::default().with(Field::End, 0).unwrap();
    let back = termsheets::import(pairs, caller, ">>> ");
    assert_eq!(back.version(), 1);
    assert_eq!(*back.timings(), caller);
    let commands = back.commands();
    assert_eq!(commands.len(), 2);
    for (restored, written) in commands.iter().zip(sequence.iter()) {
        assert_eq!(restored.comment(), None);
        assert_eq!(restored.prompt(), ">>> ");
        assert_ne!(restored.prompt(), written.prompt());
        assert_eq!(restored.input(), written.input());
        assert_eq!(restored.outputs(), written.outputs());
    }
}

#[test]
fn no_pairs_no_commands() {
    let sequence = termsheets::import(vec![], Timings::default(), "$ ");
    assert!(sequence.commands().is_empty());
    assert!(termsheets::export(&sequence).is_empty());
}
