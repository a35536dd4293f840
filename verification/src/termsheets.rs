//! Pairs of input and output: a script without comments, prompts or pacing.

use vstd::prelude::*;
use vstd::std_specs::convert::FromSpecImpl;
use crate::sequence::{fresh_sequence, CommandView, Sequence};
use crate::timings::{default_timings, Timings};

verus! {

/// A pair as plain text.
pub struct PairView {
    pub input: Seq<char>,
    pub output: Seq<Seq<char>>,
}

/// What is typed, and what is printed in answer.
#[derive(Debug)]
pub struct Command {
    input: String,
    output: Vec<String>,
}

impl View for Command {
    type V = PairView;

    closed spec fn view(&self) -> PairView {
        PairView { input: self.input@, output: self.output.deep_view() }
    }
}

impl DeepView for Command {
    type V = PairView;

    open spec fn deep_view(&self) -> PairView {
        self@
    }
}

/// What is left of a command as a pair: its input and its outputs.
pub open spec fn pair_of(command: CommandView) -> PairView {
    PairView { input: command.input, output: command.outputs }
}

/// The command that a pair becomes at `prompt`: no comment, the input and the
/// outputs of the pair.
pub open spec fn command_of(pair: PairView, prompt: Seq<char>) -> CommandView {
    CommandView { comment: None, prompt, input: pair.input, outputs: pair.output }
}

/// The pairs of `commands`, in their order.
pub open spec fn pairs_of(commands: Seq<CommandView>) -> Seq<PairView> {
    Seq::new(commands.len(), |i: int| pair_of(commands[i]))
}

/// The commands that `pairs` become at `prompt`, in their order.
pub open spec fn commands_of(pairs: Seq<PairView>, prompt: Seq<char>) -> Seq<CommandView> {
    Seq::new(pairs.len(), |i: int| command_of(pairs[i], prompt))
}

impl Command {
    /// A pair of exactly these parts.
    pub fn new(input: String, output: Vec<String>) -> (made: Self)
        ensures
            made@ == (PairView { input: input@, output: output.deep_view() }),
    {
        Command { input, output }
    }

    pub fn input(&self) -> (i: &str)
        ensures
            i@ == self@.input,
    {
        self.input.as_str()
    }

    pub fn output(&self) -> (o: &Vec<String>)
        ensures
            o.deep_view() == self@.output,
    {
        &self.output
    }

    /// The command that this pair becomes at `prompt`.
    pub fn into_command(self, prompt: &str) -> (made: crate::sequence::Command)
        ensures
            made@ == command_of(self@, prompt@),
    {
        let mut output = self.output;
        let mut made = crate::sequence::Command::from(self.input);
        made.set_prompt(prompt).append(&mut output);
        assert(made@.outputs == self@.output);
        made
    }
}

/// A copy of `texts`.
fn copied(texts: &Vec<String>) -> (copy: Vec<String>)
    ensures
        copy.deep_view() == texts.deep_view(),
{
    let mut copy: Vec<String> = Vec::new();
    let mut i: usize = 0;
    while i < texts.len()
        invariant
            0 <= i <= texts.len(),
            copy.deep_view() == texts.deep_view().take(i as int),
        decreases texts.len() - i,
    {
        let ghost before = copy.deep_view();
        copy.push(texts[i].clone());
        assert(copy.deep_view() == before.push(texts[i as int]@));
        i = i + 1;
    }
    assert(texts.deep_view().take(texts.len() as int) == texts.deep_view());
    copy
}

/// The conversion fixes the text of what it makes, not the value itself.
impl FromSpecImpl<crate::sequence::Command> for Command {
    open spec fn obeys_from_spec() -> bool {
        false
    }

    open spec fn from_spec(c: crate::sequence::Command) -> Self {
        arbitrary()
    }
}

impl From<crate::sequence::Command> for Command {
    /// Keeps the input and the outputs; the comment and the prompt are dropped.
    fn from(c: crate::sequence::Command) -> (made: Self)
        ensures
            made@ == pair_of(c@),
    {
        let input = c.input().to_owned();
        Command { input, output: c.into_outputs() }
    }
}

/// The conversion fixes the text of what it makes, not the value itself.
impl<'a> FromSpecImpl<&'a crate::sequence::Command> for Command {
    open spec fn obeys_from_spec() -> bool {
        false
    }

    open spec fn from_spec(c: &'a crate::sequence::Command) -> Self {
        arbitrary()
    }
}

impl<'a> From<&'a crate::sequence::Command> for Command {
    /// Copies the input and the outputs; the comment and the prompt are left out.
    fn from(c: &'a crate::sequence::Command) -> (made: Self)
        ensures
            made@ == pair_of(c@),
    {
        Command { input: c.input().to_owned(), output: copied(c.outputs()) }
    }
}

/// The conversion fixes the text of what it makes, not the value itself.
impl FromSpecImpl<Command> for crate::sequence::Command {
    open spec fn obeys_from_spec() -> bool {
        false
    }

    open spec fn from_spec(c: Command) -> Self {
        arbitrary()
    }
}

impl From<Command> for crate::sequence::Command {
    /// The pair as a command at the default prompt.
    fn from(c: Command) -> (made: Self)
        ensures
            made@ == command_of(c@, crate::sequence::DEFAULT_PROMPT@),
    {
        let mut output = c.output;
        let mut made = crate::sequence::Command::from(c.input);
        made.append(&mut output);
        assert(made@.outputs == c@.output);
        made
    }
}

/// Through pairs and back, a command keeps its input and its outputs, loses
/// its comment, and gets the prompt it is given in place of its own.
pub proof fn lemma_through_pairs(commands: Seq<CommandView>, prompt: Seq<char>)
    ensures
        commands_of(pairs_of(commands), prompt).len() == commands.len(),
        forall|i: int|
            0 <= i < commands.len() ==> #[trigger] commands_of(pairs_of(commands), prompt)[i] == (
            CommandView { comment: None, prompt, ..commands[i] }),
{
}

/// The conversion fixes the text of what it makes, not the value itself.
impl FromSpecImpl<Sequence> for Vec<Command> {
    open spec fn obeys_from_spec() -> bool {
        false
    }

    open spec fn from_spec(s: Sequence) -> Self {
        arbitrary()
    }
}

impl From<Sequence> for Vec<Command> {
    /// The pairs of the commands of `s`, in their order.
    fn from(s: Sequence) -> (pairs: Self)
        ensures
            pairs.deep_view() == pairs_of(s@.commands),
    {
        export(&s)
    }
}

/// The conversion fixes the text of what it makes, not the value itself.
impl<'a> FromSpecImpl<&'a Sequence> for Vec<Command> {
    open spec fn obeys_from_spec() -> bool {
        false
    }

    open spec fn from_spec(s: &'a Sequence) -> Self {
        arbitrary()
    }
}

impl<'a> From<&'a Sequence> for Vec<Command> {
    /// The pairs of the commands of `s`, in their order.
    fn from(s: &'a Sequence) -> (pairs: Self)
        ensures
            pairs.deep_view() == pairs_of(s@.commands),
    {
        export(s)
    }
}

/// The conversion fixes the parts of what it makes, not the value itself.
impl FromSpecImpl<Vec<Command>> for Sequence {
    open spec fn obeys_from_spec() -> bool {
        false
    }

    open spec fn from_spec(t: Vec<Command>) -> Self {
        arbitrary()
    }
}

impl From<Vec<Command>> for Sequence {
    /// A command for each pair, at the default prompt and the default pacing.
    fn from(t: Vec<Command>) -> (sequence: Self)
        ensures
            sequence@ == fresh_sequence(
                default_timings(),
                commands_of(t.deep_view(), crate::sequence::DEFAULT_PROMPT@),
            ),
    {
        import(t, Timings::default(), crate::sequence::DEFAULT_PROMPT)
    }
}

/// The pairs of the commands of `sequence`, in their order.
pub fn export(sequence: &Sequence) -> (pairs: Vec<Command>)
    ensures
        pairs.deep_view() == pairs_of(sequence@.commands),
{
    let commands = sequence.commands();
    let mut pairs: Vec<Command> = Vec::new();
    let mut i: usize = 0;
    while i < commands.len()
        invariant
            0 <= i <= commands.len(),
            commands.deep_view() == sequence@.commands,
            pairs.deep_view() == pairs_of(sequence@.commands).take(i as int),
        decreases commands.len() - i,
    {
        let ghost before = pairs.deep_view();
        let pair = Command::from(&commands[i]);
        pairs.push(pair);
        assert(pairs.deep_view() == before.push(pair_of(sequence@.commands[i as int])));
        i = i + 1;
    }
    assert(pairs_of(sequence@.commands).take(commands.len() as int) == pairs_of(
        sequence@.commands,
    ));
    pairs
}

/// The sequence that `pairs` become: a command for each pair, in their order,
/// all at `prompt`, played at `timings`.
pub fn import(pairs: Vec<Command>, timings: Timings, prompt: &str) -> (sequence: Sequence)
    ensures
        sequence@ == fresh_sequence(timings@, commands_of(pairs.deep_view(), prompt@)),
{
    let ghost given = pairs.deep_view();
    let mut commands: Vec<crate::sequence::Command> = Vec::new();
    for pair in it: pairs
        invariant
            it.seq().len() == given.len(),
            forall|i: int| 0 <= i < given.len() ==> (#[trigger] it.seq()[i])@ == given[i],
            commands.deep_view() == commands_of(given, prompt@).take(it.index()),
    {
        let ghost before = commands.deep_view();
        let ghost at = it.index();
        let command = pair.into_command(prompt);
        commands.push(command);
        assert(commands.deep_view() == before.push(command_of(given[at], prompt@)));
    }
    assert(commands_of(given, prompt@).take(given.len() as int) == commands_of(given, prompt@));
    let mut sequence = Sequence::from(timings);
    sequence.append(&mut commands);
    assert(sequence@.commands == commands_of(given, prompt@));
    sequence
}

} // verus!
