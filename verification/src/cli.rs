//! What the command line front end decides: where the script comes from, how
//! commands are added to it, and what a line typed at the interactive prompt
//! asks for. Reading, running and printing are left to the caller.

use vstd::prelude::*;
use vstd::string::StringSliceAdditionalSpecFns;
use vstd::utf8::{decode_utf8, encode_utf8_decode_utf8, valid_utf8};
use crate::error::Error;
use crate::sequence::{Command, CommandView, text_of};

verus! {

/// The error of `shellwords::split`. It says nothing but that the quotes of a
/// line do not pair up.
#[verifier::external_type_specification]
#[verifier::external_body]
pub struct ExMismatchedQuotes(shellwords::MismatchedQuotes);

/// The error of `core::str::from_utf8`. Nothing is read from it.
#[verifier::external_type_specification]
#[verifier::external_body]
pub struct ExUtf8Error(core::str::Utf8Error);

/// The words that `shellwords::split` cuts a line into, or `None` for a line
/// that it turns down.
pub uninterp spec fn shell_words(line: Seq<char>) -> Option<Seq<Seq<char>>>;

/// `shellwords::split` cuts a line into words as a Bourne shell would, with
/// quotes and backslashes read and taken away. It gives the same answer for
/// the same line, and an error for a line whose quotes do not pair up.
#[verifier::external_body]
fn shell_split(line: &str) -> (cut: Result<Vec<String>, shellwords::MismatchedQuotes>)
    ensures
        match cut {
            Ok(words) => shell_words(line@) == Some(words.deep_view()),
            Err(_) => shell_words(line@) is None,
        },
{
    shellwords::split(line)
}

/// `atty::is` says whether a stream is a terminal. The answer depends on how
/// the process was started, so nothing is claimed of it.
#[verifier::external_body]
fn stdin_is_terminal() -> bool {
    atty::is(atty::Stream::Stdin)
}

/// `core::str::from_utf8` takes bytes that are valid UTF-8 as the text they
/// encode, and turns all other bytes down.
pub assume_specification[ core::str::from_utf8 ](bytes: &[u8]) -> (text: Result<
    &str,
    core::str::Utf8Error,
>)
    ensures
        text is Ok <==> valid_utf8(bytes@),
        text is Ok ==> text->Ok_0.spec_bytes() == bytes@,
;

/// The words of a line typed at the interactive prompt.
pub fn split_line(line: &str) -> (cut: Result<Vec<String>, Error>)
    ensures
        match cut {
            Ok(words) => shell_words(line@) == Some(words.deep_view()),
            Err(e) => e == Error::MismatchedQuotes && shell_words(line@) is None,
        },
{
    match shell_split(line) {
        Ok(words) => Ok(words),
        Err(_) => Err(Error::MismatchedQuotes),
    }
}

/// What a command printed, as text. Output that is not valid UTF-8 is turned
/// down.
pub fn captured_output(stdout: &[u8]) -> (text: Result<String, Error>)
    ensures
        match text {
            Ok(t) => valid_utf8(stdout@) && t@ == decode_utf8(stdout@),
            Err(e) => e == Error::EncodingFailure && !valid_utf8(stdout@),
        },
{
    match core::str::from_utf8(stdout) {
        Ok(t) => {
            proof {
                encode_utf8_decode_utf8(t@);
            }
            Ok(t.to_owned())
        },
        Err(_) => Err(Error::EncodingFailure),
    }
}

/// The command that the arguments of one call describe.
pub fn scripted_command(
    input: &str,
    comment: Option<&str>,
    prompt: &str,
    outputs: Vec<String>,
) -> (made: Command)
    ensures
        made@ == (CommandView {
            comment: text_of(comment),
            prompt: prompt@,
            input: input@,
            outputs: outputs.deep_view(),
        }),
{
    let mut outputs = outputs;
    let ghost given = outputs.deep_view();
    let mut made = Command::from(input);
    made.set_comment(comment).set_prompt(prompt).append(&mut outputs);
    assert(made@.outputs == given);
    made
}

/// Where the script is read from.
#[derive(Clone, Copy, Debug, PartialEq, Eq, Structural)]
pub enum Source {
    /// The file that the caller named.
    File,
    /// Nowhere: the script starts empty.
    Fresh,
    /// Standard input, which another program fills.
    Stdin,
}

/// How commands are added to the script that was read.
#[derive(Clone, Copy, Debug, PartialEq, Eq, Structural)]
pub enum Entry {
    /// The one command that the arguments describe.
    Arguments,
    /// Line by line, at a prompt.
    Interactive,
    /// None are added.
    Nothing,
}

/// A named file is read. Without one, the script starts empty at a terminal
/// and is read from standard input otherwise.
pub open spec fn spec_source(has_input_file: bool, terminal: bool) -> Source {
    if has_input_file {
        Source::File
    } else if terminal {
        Source::Fresh
    } else {
        Source::Stdin
    }
}

/// An input among the arguments is the one command to add. Without one,
/// commands are asked for at a prompt if no file was named and standard input
/// is a terminal, and none are added otherwise.
pub open spec fn spec_entry(has_input: bool, has_input_file: bool, terminal: bool) -> Entry {
    if has_input {
        Entry::Arguments
    } else if !has_input_file && terminal {
        Entry::Interactive
    } else {
        Entry::Nothing
    }
}

/// Where the script is read from, given whether standard input is a terminal.
pub fn source_at(has_input_file: bool, terminal: bool) -> (source: Source)
    ensures
        source == spec_source(has_input_file, terminal),
{
    if has_input_file {
        Source::File
    } else if terminal {
        Source::Fresh
    } else {
        Source::Stdin
    }
}

/// How commands are added, given whether standard input is a terminal.
pub fn entry_at(has_input: bool, has_input_file: bool, terminal: bool) -> (entry: Entry)
    ensures
        entry == spec_entry(has_input, has_input_file, terminal),
{
    if has_input {
        Entry::Arguments
    } else if !has_input_file && terminal {
        Entry::Interactive
    } else {
        Entry::Nothing
    }
}

/// Where the script is read from in this process.
pub fn source(has_input_file: bool) -> (source: Source)
    ensures
        source == spec_source(has_input_file, true) || source == spec_source(has_input_file, false),
{
    source_at(has_input_file, stdin_is_terminal())
}

/// How commands are added in this process.
pub fn entry(has_input: bool, has_input_file: bool) -> (entry: Entry)
    ensures
        entry == spec_entry(has_input, has_input_file, true) || entry == spec_entry(
            has_input,
            has_input_file,
            false,
        ),
{
    entry_at(has_input, has_input_file, stdin_is_terminal())
}

/// The flags of one line typed at the interactive prompt, or of the command
/// line itself.
#[derive(Clone, Copy, Debug, PartialEq, Eq, Structural)]
pub struct Request {
    pub short_help: bool,
    pub long_help: bool,
    pub short_version: bool,
    pub long_version: bool,
    pub license: bool,
    pub warranty: bool,
    pub print: bool,
}

/// What is done about a request.
#[derive(Clone, Copy, Debug, PartialEq, Eq, Structural)]
pub enum Action {
    ShortHelp,
    LongHelp,
    ShortVersion,
    LongVersion,
    License,
    Warranty,
    /// The script so far is written out.
    Print,
    /// The settings are brought up to date and the line's command, if it has
    /// one, is added to the script.
    Update,
}

impl Request {
    /// The first of help, version, license, warranty and print that is asked
    /// for is done, and nothing else; a line that asks for none of them
    /// updates the script.
    pub open spec fn spec_action(self) -> Action {
        if self.short_help {
            Action::ShortHelp
        } else if self.long_help {
            Action::LongHelp
        } else if self.short_version {
            Action::ShortVersion
        } else if self.long_version {
            Action::LongVersion
        } else if self.license {
            Action::License
        } else if self.warranty {
            Action::Warranty
        } else if self.print {
            Action::Print
        } else {
            Action::Update
        }
    }

    pub fn action(&self) -> (action: Action)
        ensures
            action == self.spec_action(),
    {
        if self.short_help {
            Action::ShortHelp
        } else if self.long_help {
            Action::LongHelp
        } else if self.short_version {
            Action::ShortVersion
        } else if self.long_version {
            Action::LongVersion
        } else if self.license {
            Action::License
        } else if self.warranty {
            Action::Warranty
        } else if self.print {
            Action::Print
        } else {
            Action::Update
        }
    }
}

} // verus!
