use germ::cli::{
    captured_output, entry, entry_at, scripted_command, source, source_at, split_line, Action,
    Entry, Request, Source,
};
use germ::error::Error;

#[test]
fn line_is_cut_into_words() {
    assert_eq!(
        split_line("\"echo Hello World\" \"Hello World\"").unwrap(),
        vec!["echo Hello World", "Hello World"]
    );
    assert_eq!(
        split_line("--speed 2.0 ls  'a b' c\\ d").unwrap(),
        vec!["--speed", "2.0", "ls", "a b", "c d"]
    );
    assert_eq!(split_line("").unwrap(), Vec::<String>::new());
    assert_ne!(split_line("a b").unwrap(), vec!["a b"]);
}

#[test]
fn unpaired_quotes_are_turned_down() {
    assert_eq!(split_line("echo \"Hello"), Err(Error::MismatchedQuotes));
    assert_eq!(split_line("echo 'Hello"), Err(Error::MismatchedQuotes));
}

#[test]
fn captured_text_is_decoded() {
    assert_eq!(captured_output(b"Hello World\n"), Ok("Hello World\n".to_owned()));
    assert_eq!(captured_output(b""), Ok(String::new()));
    assert_eq!(
        captured_output(&[0x63, 0x61, 0x66, 0xc3, 0xa9]),
        Ok("caf\u{e9}".to_owned())
    );
}

#[test]
fn captured_bytes_that_are_no_text_are_turned_down() {
    assert_eq!(captured_output(&[0xff, 0xfe]), Err(Error::EncodingFailure));
    assert_eq!(captured_output(&[0x61, 0xc3]), Err(Error::EncodingFailure));
    assert_eq!(captured_output(&[0xed, 0xa0, 0x80]), Err(Error::EncodingFailure));
    assert_eq!(captured_output(&[0xc0, 0x80]), Err(Error::EncodingFailure));
}

#[test]
fn command_is_made_of_the_arguments() {
    let command = scripted_command(
        "echo hi",
        Some("# greet"),
        "> ",
        vec!["hi".to_owned(), "there".to_owned()],
    );
    assert_eq!(command.comment(), Some("# greet"));
    assert_eq!(command.prompt(), "> ");
    assert_eq!(command.input(), "echo hi");
    assert_eq!(command.outputs(), &vec!["hi", "there"]);
    let plain = scripted_command("ls", None, "$ ", vec![]);
    assert_eq!(plain.comment(), None);
    assert!(plain.outputs().is_empty());
}

#[test]
fn script_comes_from_the_file_or_the_pipe() {
    assert_eq!(source_at(true, true), Source::File);
    assert_eq!(source_at(true, false), Source::File);
    assert_eq!(source_at(false, true), Source::Fresh);
    assert_eq!(source_at(false, false), Source::Stdin);
    assert_eq!(source(true), Source::File);
    assert_ne!(source(false), Source::File);
}

#[test]
fn commands_come_from_arguments_or_the_prompt() {
    assert_eq!(entry_at(true, false, false), Entry::Arguments);
    assert_eq!(entry_at(true, true, true), Entry::Arguments);
    assert_eq!(entry_at(false, false, true), Entry::Interactive);
    assert_eq!(entry_at(false, true, true), Entry::Nothing);
    assert_eq!(entry_at(false, false, false), Entry::Nothing);
    assert_eq!(entry_at(false, true, false), Entry::Nothing);
    assert_eq!(entry(true, false), Entry::Arguments);
    assert_eq!(entry(false, true), Entry::Nothing);
    assert_ne!(entry(false, false), Entry::Arguments);
}

#[test]
fn first_flag_asked_for_wins() {
    let none = Request {
        short_help: false,
        long_help: false,
        short_version: false,
        long_version: false,
        license: false,
        warranty: false,
        print: false,
    };
    let all = Request {
        short_help: true,
        long_help: true,
        short_version: true,
        long_version: true,
        license: true,
        warranty: true,
        print: true,
    };
    assert_eq!(none.action(), Action::Update);
    assert_eq!(all.action(), Action::ShortHelp);
    assert_eq!(Request { short_help: false, ..all }.action(), Action::LongHelp);
    assert_eq!(
        Request { short_help: false, long_help: false, ..all }.action(),
        Action::ShortVersion
    );
    assert_eq!(
        Request { long_version: true, license: true, print: true, ..none }.action(),
        Action::LongVersion
    );
    assert_eq!(
        Request { license: true, warranty: true, print: true, ..none }.action(),
        Action::License
    );
    assert_eq!(
        Request { warranty: true, print: true, ..none }.action(),
        Action::Warranty
    );
    assert_eq!(Request { print: true, ..none }.action(), Action::Print);
}
