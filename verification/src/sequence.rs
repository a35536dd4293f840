//! The script of a recording: commands, each with a prompt, what is typed at it
//! and what it prints, and the pacing they are played with.

use vstd::prelude::*;
use vstd::std_specs::iter::IteratorSpec;
use vstd::std_specs::convert::FromSpecImpl;
use crate::timings::{default_timings, TimingsView};
pub use crate::timings::Timings;

verus! {

/// The version that a new sequence carries.
pub const VERSION: usize = 1;

/// The prompt of a command that was given none.
pub const DEFAULT_PROMPT: &'static str = "$ ";

/// A command as plain text.
pub struct CommandView {
    pub comment: Option<Seq<char>>,
    pub prompt: Seq<char>,
    pub input: Seq<char>,
    pub outputs: Seq<Seq<char>>,
}

/// One prompt, what is typed at it, and the outputs shown in answer, in the
/// order in which they are shown. A comment, if there is one, is printed above
/// the prompt.
#[derive(Debug)]
pub struct Command {
    comment: Option<String>,
    prompt: String,
    input: String,
    outputs: Vec<String>,
}

/// The text of an optional string slice.
pub open spec fn text_of(slice: Option<&str>) -> Option<Seq<char>> {
    match slice {
        Some(s) => Some(s@),
        None => None,
    }
}

impl View for Command {
    type V = CommandView;

    closed spec fn view(&self) -> CommandView {
        CommandView {
            comment: match self.comment {
                Some(c) => Some(c@),
                None => None,
            },
            prompt: self.prompt@,
            input: self.input@,
            outputs: self.outputs.deep_view(),
        }
    }
}

impl DeepView for Command {
    type V = CommandView;

    open spec fn deep_view(&self) -> CommandView {
        self@
    }
}

impl Command {
    /// Replaces the comment, or takes it away.
    pub fn set_comment(&mut self, c: Option<&str>) -> (same: &mut Self)
        ensures
            same@ == (CommandView { comment: text_of(c), ..old(self)@ }),
            *final(self) == *final(same),
    {
        self.comment = match c {
            Some(s) => Some(s.to_owned()),
            None => None,
        };
        self
    }

    pub fn comment(&self) -> (c: Option<&str>)
        ensures
            text_of(c) == self@.comment,
    {
        match &self.comment {
            Some(s) => Some(s.as_str()),
            None => None,
        }
    }

    /// Replaces the prompt.
    pub fn set_prompt(&mut self, p: &str) -> (same: &mut Self)
        ensures
            same@ == (CommandView { prompt: p@, ..old(self)@ }),
            *final(self) == *final(same),
    {
        self.prompt = p.to_owned();
        self
    }

    pub fn prompt(&self) -> (p: &str)
        ensures
            p@ == self@.prompt,
    {
        self.prompt.as_str()
    }

    /// Puts one more output behind those the command has.
    pub fn add(&mut self, output: &str) -> (same: &mut Self)
        ensures
            same@ == (CommandView { outputs: old(self)@.outputs.push(output@), ..old(self)@ }),
            *final(self) == *final(same),
    {
        let ghost before = self.outputs.deep_view();
        self.outputs.push(output.to_owned());
        assert(self.outputs.deep_view() == before.push(output@));
        self
    }

    /// Moves all of `outputs` behind those the command has, and leaves
    /// `outputs` empty.
    pub fn append(&mut self, outputs: &mut Vec<String>) -> (same: &mut Self)
        ensures
            same@ == (CommandView {
                outputs: old(self)@.outputs + old(outputs).deep_view(),
                ..old(self)@
            }),
            *final(self) == *final(same),
            final(outputs)@ == Seq::<String>::empty(),
    {
        let ghost before = self.outputs.deep_view();
        let ghost moved = outputs.deep_view();
        self.outputs.append(outputs);
        assert(self.outputs.deep_view() == before + moved);
        self
    }

    pub fn input(&self) -> (i: &str)
        ensures
            i@ == self@.input,
    {
        self.input.as_str()
    }

    pub fn outputs(&self) -> (o: &Vec<String>)
        ensures
            o.deep_view() == self@.outputs,
    {
        &self.outputs
    }

    pub fn into_outputs(self) -> (o: Vec<String>)
        ensures
            o.deep_view() == self@.outputs,
    {
        self.outputs
    }
}

/// What `Command::from` makes of an input: no comment, the default prompt, no
/// outputs.
pub open spec fn bare_command(input: Seq<char>) -> CommandView {
    CommandView {
        comment: None,
        prompt: DEFAULT_PROMPT@,
        input,
        outputs: Seq::empty(),
    }
}

/// The conversion fixes the text of what it makes, not the value itself.
impl FromSpecImpl<String> for Command {
    open spec fn obeys_from_spec() -> bool {
        false
    }

    open spec fn from_spec(s: String) -> Self {
        arbitrary()
    }
}

impl From<String> for Command {
    fn from(s: String) -> (made: Self)
        ensures
            made@ == bare_command(s@),
    {
        let made = Command {
            comment: None,
            prompt: DEFAULT_PROMPT.to_owned(),
            input: s,
            outputs: Vec::new(),
        };
        assert(made.outputs.deep_view() == Seq::<Seq<char>>::empty());
        made
    }
}

/// The conversion fixes the text of what it makes, not the value itself.
impl<'a> FromSpecImpl<&'a str> for Command {
    open spec fn obeys_from_spec() -> bool {
        false
    }

    open spec fn from_spec(s: &'a str) -> Self {
        arbitrary()
    }
}

impl<'a> From<&'a str> for Command {
    fn from(s: &'a str) -> (made: Self)
        ensures
            made@ == bare_command(s@),
    {
        let made = Command {
            comment: None,
            prompt: DEFAULT_PROMPT.to_owned(),
            input: s.to_owned(),
            outputs: Vec::new(),
        };
        assert(made.outputs.deep_view() == Seq::<Seq<char>>::empty());
        made
    }
}

/// A sequence as plain values.
pub struct SequenceView {
    pub version: usize,
    pub timings: TimingsView,
    pub commands: Seq<CommandView>,
}

/// Commands in the order in which they are played, the pacing they are played
/// with, and the version of the format they are kept in.
#[derive(Debug)]
pub struct Sequence {
    version: usize,
    timings: Timings,
    commands: Vec<Command>,
}

impl View for Sequence {
    type V = SequenceView;

    closed spec fn view(&self) -> SequenceView {
        SequenceView {
            version: self.version,
            timings: self.timings@,
            commands: self.commands.deep_view(),
        }
    }
}

impl DeepView for Sequence {
    type V = SequenceView;

    open spec fn deep_view(&self) -> SequenceView {
        self@
    }
}

impl Sequence {
    /// A sequence of exactly these parts.
    pub fn new(version: usize, timings: Timings, commands: Vec<Command>) -> (made: Self)
        ensures
            made@ == (SequenceView {
                version,
                timings: timings@,
                commands: commands.deep_view(),
            }),
    {
        Sequence { version, timings, commands }
    }

    /// The commands, first to last.
    pub fn iter(&self) -> (walk: core::slice::Iter<'_, Command>)
        ensures
            walk.remaining().len() == self@.commands.len(),
            forall|i: int|
                0 <= i < self@.commands.len() ==> (#[trigger] walk.remaining()[i])@
                    == self@.commands[i],
            walk.decrease() is Some,
            walk.initial_value_relation(&walk),
    {
        let walk = self.commands.iter();
        proof {
            assert forall|i: int| 0 <= i < self@.commands.len() implies (
            #[trigger] walk.remaining()[i])@ == self@.commands[i] by {
                assert(walk.remaining()[i] == self.commands@.as_ref()[i]);
            }
        }
        walk
    }

    /// Puts one more command behind those the sequence has.
    pub fn add(&mut self, command: Command) -> (same: &mut Self)
        ensures
            same@ == (SequenceView {
                commands: old(self)@.commands.push(command@),
                ..old(self)@
            }),
            *final(self) == *final(same),
    {
        let ghost before = self.commands.deep_view();
        self.commands.push(command);
        assert(self.commands.deep_view() == before.push(command@));
        self
    }

    /// Moves all of `commands` behind those the sequence has, and leaves
    /// `commands` empty.
    pub fn append(&mut self, commands: &mut Vec<Command>) -> (same: &mut Self)
        ensures
            same@ == (SequenceView {
                commands: old(self)@.commands + old(commands).deep_view(),
                ..old(self)@
            }),
            *final(self) == *final(same),
            final(commands)@ == Seq::<Command>::empty(),
    {
        let ghost before = self.commands.deep_view();
        let ghost moved = commands.deep_view();
        self.commands.append(commands);
        assert(self.commands.deep_view() == before + moved);
        self
    }

    /// Takes the commands of `s` behind those the sequence has. The pacing and
    /// the version of `s` are dropped: the sequence keeps its own.
    pub fn append_from(&mut self, s: Sequence) -> (same: &mut Self)
        ensures
            same@ == (SequenceView {
                commands: old(self)@.commands + s@.commands,
                ..old(self)@
            }),
            *final(self) == *final(same),
    {
        let mut commands = s.commands;
        self.append(&mut commands)
    }

    pub fn timings(&self) -> (t: &Timings)
        ensures
            t@ == self@.timings,
            t.wf(),
    {
        proof {
            use_type_invariant(&self.timings);
        }
        &self.timings
    }

    pub fn into_timings(self) -> (t: Timings)
        ensures
            t@ == self@.timings,
            t.wf(),
    {
        proof {
            use_type_invariant(&self.timings);
        }
        self.timings
    }

    pub fn version(&self) -> (v: usize)
        ensures
            v == self@.version,
    {
        self.version
    }

    /// The commands, first to last.
    pub fn commands(&self) -> (c: &Vec<Command>)
        ensures
            c.deep_view() == self@.commands,
    {
        &self.commands
    }
}

/// What the conversions and `Sequence::default` make: the current version,
/// and the pacing and the commands given.
pub open spec fn fresh_sequence(timings: TimingsView, commands: Seq<CommandView>) -> SequenceView {
    SequenceView { version: VERSION, timings, commands }
}

/// The conversion fixes the parts of what it makes, not the value itself.
impl FromSpecImpl<Vec<Command>> for Sequence {
    open spec fn obeys_from_spec() -> bool {
        false
    }

    open spec fn from_spec(c: Vec<Command>) -> Self {
        arbitrary()
    }
}

impl From<Vec<Command>> for Sequence {
    /// These commands at the default pacing.
    fn from(c: Vec<Command>) -> (made: Self)
        ensures
            made@ == fresh_sequence(default_timings(), c.deep_view()),
    {
        Sequence { version: VERSION, timings: Timings::default(), commands: c }
    }
}

/// The conversion fixes the parts of what it makes, not the value itself.
impl FromSpecImpl<Timings> for Sequence {
    open spec fn obeys_from_spec() -> bool {
        false
    }

    open spec fn from_spec(t: Timings) -> Self {
        arbitrary()
    }
}

impl From<Timings> for Sequence {
    /// No commands yet, at this pacing.
    fn from(t: Timings) -> (made: Self)
        ensures
            made@ == fresh_sequence(t@, Seq::empty()),
    {
        let made = Sequence { version: VERSION, timings: t, commands: Vec::new() };
        assert(made.commands.deep_view() == Seq::<CommandView>::empty());
        made
    }
}

impl Default for Sequence {
    /// No commands yet, at the default pacing.
    fn default() -> (made: Self)
        ensures
            made@ == fresh_sequence(default_timings(), Seq::empty()),
    {
        let made = Sequence { version: VERSION, timings: Timings::default(), commands: Vec::new() };
        assert(made.commands.deep_view() == Seq::<CommandView>::empty());
        made
    }
}

impl IntoIterator for Sequence {
    type Item = Command;

    type IntoIter = std::vec::IntoIter<Command>;

    /// The commands, first to last, for the caller to keep.
    fn into_iter(self) -> (walk: std::vec::IntoIter<Command>)
        ensures
            walk.remaining().len() == self@.commands.len(),
            forall|i: int|
                0 <= i < self@.commands.len() ==> (#[trigger] walk.remaining()[i])@
                    == self@.commands[i],
            walk.decrease() is Some,
            walk.initial_value_relation(&walk),
    {
        let ghost given = self.commands;
        let walk = self.commands.into_iter();
        proof {
            assert forall|i: int| 0 <= i < self@.commands.len() implies (
            #[trigger] walk.remaining()[i])@ == self@.commands[i] by {
                assert(walk.remaining()[i] == given@[i]);
            }
        }
        walk
    }
}

} // verus!
