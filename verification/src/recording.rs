//! What a recording is: the events that a sequence stands for, and when each
//! of them happens, as mathematics.
//!
//! A command that starts `start` milliseconds into the script gives, in this
//! order: its comment and its prompt at the start; each character of its input
//! at `type_start + type_char * i` after the start; and, once typing is done,
//! output `j` at `output_line * (j + 1)` after that. The next command starts
//! when the last output is shown. Script times are turned into clock times by
//! `TimingsView::instant`.

use vstd::prelude::*;
use vstd::string::StrSliceExecFns;
use crate::asciicast::EventKind;
use crate::sequence::{Command, CommandView, Sequence, SequenceView};
use crate::text::lines;
use crate::timings::{Timings, TimingsView, NOMINAL_SPEED};

verus! {

/// An event as plain values: clock time in milliseconds, kind and text.
pub struct EventView {
    pub time: nat,
    pub kind: EventKind,
    pub data: Seq<char>,
}

/// The line break that a terminal is sent.
pub open spec fn crlf() -> Seq<char> {
    "\r\n"@
}

/// Text shown at `time`.
pub open spec fn printed(time: nat, data: Seq<char>) -> EventView {
    EventView { time, kind: EventKind::Printed, data }
}

/// A key pressed at `time`.
pub open spec fn keypress(time: nat, data: Seq<char>) -> EventView {
    EventView { time, kind: EventKind::Keypress, data }
}

/// One typed character at `time`: the key itself when keys are recorded, and
/// always its echo.
pub open spec fn keystroke(time: nat, c: char, echo: bool) -> Seq<EventView> {
    if echo {
        seq![keypress(time, seq![c]), printed(time, seq![c])]
    } else {
        seq![printed(time, seq![c])]
    }
}

/// The first `count` of `rows`, each shown at `time` with a line break behind it.
pub open spec fn shown(rows: Seq<Seq<char>>, time: nat, count: nat) -> Seq<EventView> {
    Seq::new(count, |k: int| printed(time, rows[k] + crlf()))
}

impl CommandView {
    /// Script time from the start of this command to the start of the next.
    pub open spec fn span(self, t: TimingsView) -> nat {
        t.span(self.input.len(), self.outputs.len())
    }

    /// The comment, if there is one, and the prompt, both at `time`.
    pub open spec fn opening(self, time: nat) -> Seq<EventView> {
        match self.comment {
            Some(c) => seq![printed(time, c + crlf()), printed(time, self.prompt)],
            None => seq![printed(time, self.prompt)],
        }
    }

    /// The first `count` characters of the input as they are typed.
    pub open spec fn typed(self, t: TimingsView, start: nat, echo: bool, count: nat) -> Seq<
        EventView,
    >
        decreases count,
    {
        if count == 0 {
            Seq::empty()
        } else {
            let i = (count - 1) as nat;
            self.typed(t, start, echo, i) + keystroke(
                t.instant(start + t.key_offset(i)),
                self.input[i as int],
                echo,
            )
        }
    }

    /// Clock time at which output `index` is shown.
    pub open spec fn reveal_time(self, t: TimingsView, start: nat, index: nat) -> nat {
        t.instant(start + t.reveal_offset(self.input.len(), index))
    }

    /// What goes before the lines of output `index`: ahead of the first output,
    /// the break that ends the typed line; ahead of the others, nothing.
    pub open spec fn submitted(self, t: TimingsView, start: nat, index: nat) -> Seq<EventView> {
        if index == 0 {
            seq![printed(self.reveal_time(t, start, index), crlf())]
        } else {
            Seq::empty()
        }
    }

    /// Output `index` as it is shown: all of its lines at one time.
    pub open spec fn shown_output(self, t: TimingsView, start: nat, index: nat) -> Seq<EventView> {
        let rows = lines(self.outputs[index as int]);
        self.submitted(t, start, index) + shown(rows, self.reveal_time(t, start, index), rows.len())
    }

    /// The first `count` outputs as they are shown.
    pub open spec fn revealed(self, t: TimingsView, start: nat, count: nat) -> Seq<EventView>
        decreases count,
    {
        if count == 0 {
            Seq::empty()
        } else {
            let j = (count - 1) as nat;
            self.revealed(t, start, j) + self.shown_output(t, start, j)
        }
    }

    /// Every event of this command when it starts `start` milliseconds into the
    /// script.
    pub open spec fn events(self, t: TimingsView, start: nat, echo: bool) -> Seq<EventView> {
        self.opening(t.instant(start)) + self.typed(t, start, echo, self.input.len())
            + self.revealed(t, start, self.outputs.len())
    }
}

impl SequenceView {
    /// Script time at which command `count` starts, which is when all commands
    /// before it are done.
    pub open spec fn elapsed(self, count: nat) -> nat
        decreases count,
    {
        if count == 0 {
            0
        } else {
            let i = (count - 1) as nat;
            self.elapsed(i) + self.commands[i as int].span(self.timings)
        }
    }

    /// The events of the first `count` commands.
    pub open spec fn played(self, echo: bool, count: nat) -> Seq<EventView>
        decreases count,
    {
        if count == 0 {
            Seq::empty()
        } else {
            let i = (count - 1) as nat;
            self.played(echo, i) + self.commands[i as int].events(
                self.timings,
                self.elapsed(i),
                echo,
            )
        }
    }

    /// Script time that the whole sequence takes.
    pub open spec fn script_time(self) -> nat {
        self.elapsed(self.commands.len())
    }

    /// Clock time at which the recording is over: the end delay after the last
    /// command is done.
    pub open spec fn end_time(self) -> nat {
        self.timings.hold_instant(self.script_time())
    }

    /// The frame that holds the last picture: one empty event at the end time,
    /// unless the end delay is zero.
    pub open spec fn closing(self) -> Seq<EventView> {
        if self.timings.end != 0 {
            seq![printed(self.end_time(), Seq::empty())]
        } else {
            Seq::empty()
        }
    }

    /// Every event of the sequence, in the order in which it is written.
    pub open spec fn recording(self, echo: bool) -> Seq<EventView> {
        self.played(echo, self.commands.len()) + self.closing()
    }

    /// Whether the script time and the end time of the recording are times
    /// that a `u64` holds.
    pub open spec fn fits(self) -> bool {
        self.script_time() <= u64::MAX && self.end_time() <= u64::MAX
    }

    /// A later command starts no earlier.
    pub proof fn lemma_elapsed_monotone(self, earlier: nat, later: nat)
        requires
            earlier <= later,
        ensures
            self.elapsed(earlier) <= self.elapsed(later),
        decreases later,
    {
        if earlier < later {
            self.lemma_elapsed_monotone(earlier, (later - 1) as nat);
        }
    }
}

/// No event of `events` happens before one that is written ahead of it.
pub open spec fn in_order(events: Seq<EventView>) -> bool {
    forall|i: int, j: int| 0 <= i <= j < events.len() ==> events[i].time <= events[j].time
}

/// Every event of `events` happens at `from` or later and at `to` or earlier.
pub open spec fn within(events: Seq<EventView>, from: nat, to: nat) -> bool {
    forall|i: int| 0 <= i < events.len() ==> from <= (#[trigger] events[i]).time <= to
}

/// Events in order before `mid`, with events in order after it behind them,
/// are in order.
proof fn lemma_joined(
    first: Seq<EventView>,
    second: Seq<EventView>,
    from: nat,
    mid: nat,
    to: nat,
)
    requires
        from <= mid <= to,
        in_order(first),
        within(first, from, mid),
        in_order(second),
        within(second, mid, to),
    ensures
        in_order(first + second),
        within(first + second, from, to),
{
    let joined = first + second;
    assert forall|i: int| 0 <= i < joined.len() implies from <= (#[trigger] joined[i]).time
        <= to by {
        if i < first.len() {
            assert(joined[i] == first[i]);
        } else {
            assert(joined[i] == second[i - first.len()]);
        }
    }
    assert forall|i: int, j: int| 0 <= i <= j < joined.len() implies joined[i].time
        <= joined[j].time by {
        if j < first.len() {
            assert(joined[i] == first[i] && joined[j] == first[j]);
        } else if i < first.len() {
            assert(joined[i] == first[i] && joined[j] == second[j - first.len()]);
        } else {
            assert(joined[i] == second[i - first.len()] && joined[j] == second[j - first.len()]);
        }
    }
}

impl CommandView {
    /// The characters of a command are typed in order, none before the command
    /// starts.
    proof fn lemma_typed_in_order(self, t: TimingsView, start: nat, echo: bool, count: nat)
        requires
            0 < t.speed,
        ensures
            in_order(self.typed(t, start, echo, count)),
            within(
                self.typed(t, start, echo, count),
                t.instant(start),
                t.instant(start + t.key_offset(count)),
            ),
        decreases count,
    {
        t.lemma_instant_monotone(start, start + t.key_offset(count));
        if count > 0 {
            let i = (count - 1) as nat;
            let time = t.instant(start + t.key_offset(i));
            self.lemma_typed_in_order(t, start, echo, i);
            t.lemma_key_offsets(i, count);
            t.lemma_instant_monotone(start, start + t.key_offset(i));
            t.lemma_instant_monotone(start + t.key_offset(i), start + t.key_offset(count));
            lemma_joined(
                self.typed(t, start, echo, i),
                keystroke(time, self.input[i as int], echo),
                t.instant(start),
                time,
                t.instant(start + t.key_offset(count)),
            );
        }
    }

    /// The outputs of a command are shown in order, none before typing is over.
    proof fn lemma_revealed_in_order(self, t: TimingsView, start: nat, count: nat)
        requires
            0 < t.speed,
        ensures
            in_order(self.revealed(t, start, count)),
            within(
                self.revealed(t, start, count),
                t.instant(start + t.typing_time(self.input.len())),
                t.instant(start + t.span(self.input.len(), count)),
            ),
        decreases count,
    {
        let n = self.input.len();
        t.lemma_instant_monotone(start + t.typing_time(n), start + t.span(n, count));
        if count > 0 {
            let j = (count - 1) as nat;
            self.lemma_revealed_in_order(t, start, j);
            t.lemma_reveal_offsets(n, j, count);
            t.lemma_instant_monotone(start + t.typing_time(n), start + t.span(n, j));
            t.lemma_instant_monotone(start + t.span(n, j), start + t.span(n, count));
            lemma_joined(
                self.revealed(t, start, j),
                self.shown_output(t, start, j),
                t.instant(start + t.typing_time(n)),
                t.instant(start + t.span(n, j)),
                t.instant(start + t.span(n, count)),
            );
        }
    }

    /// The events of a command are in order, none before the command starts
    /// and none after the next one does.
    pub proof fn lemma_events_in_order(self, t: TimingsView, start: nat, echo: bool)
        requires
            0 < t.speed,
        ensures
            in_order(self.events(t, start, echo)),
            within(self.events(t, start, echo), t.instant(start), t.instant(start + self.span(t))),
    {
        let n = self.input.len();
        let m = self.outputs.len();
        let begun = t.instant(start);
        let keyed = t.instant(start + t.key_offset(n));
        let entered = t.instant(start + t.typing_time(n));
        let done = t.instant(start + self.span(t));
        self.lemma_typed_in_order(t, start, echo, n);
        self.lemma_revealed_in_order(t, start, m);
        t.lemma_key_offsets(n, n);
        t.lemma_instant_monotone(start, start + t.key_offset(n));
        t.lemma_instant_monotone(start + t.key_offset(n), start + t.typing_time(n));
        t.lemma_instant_monotone(start + t.typing_time(n), start + self.span(t));
        lemma_joined(self.opening(begun), self.typed(t, start, echo, n), begun, begun, entered);
        lemma_joined(
            self.opening(begun) + self.typed(t, start, echo, n),
            self.revealed(t, start, m),
            begun,
            entered,
            done,
        );
    }
}

impl SequenceView {
    /// The events of the first commands are in order, none before the begin
    /// delay is over and none after the next command starts.
    proof fn lemma_played_in_order(self, echo: bool, count: nat)
        requires
            0 < self.timings.speed,
        ensures
            in_order(self.played(echo, count)),
            within(self.played(echo, count), self.timings.begin, self.timings.instant(self.elapsed(count))),
        decreases count,
    {
        let t = self.timings;
        assert(t.instant(0) == t.begin);
        t.lemma_instant_monotone(0, self.elapsed(count));
        if count > 0 {
            let i = (count - 1) as nat;
            self.lemma_played_in_order(echo, i);
            self.commands[i as int].lemma_events_in_order(t, self.elapsed(i), echo);
            t.lemma_instant_monotone(0, self.elapsed(i));
            t.lemma_instant_monotone(self.elapsed(i), self.elapsed(count));
            lemma_joined(
                self.played(echo, i),
                self.commands[i as int].events(t, self.elapsed(i), echo),
                t.begin,
                t.instant(self.elapsed(i)),
                t.instant(self.elapsed(count)),
            );
        }
    }

    /// Once a command is played, the first event is that of its first command,
    /// at the moment the begin delay is over.
    proof fn lemma_played_first(self, echo: bool, count: nat)
        requires
            0 < self.timings.speed,
            0 < count,
        ensures
            self.played(echo, count).len() > 0,
            self.played(echo, count)[0].time == self.timings.begin,
        decreases count,
    {
        let t = self.timings;
        let i = (count - 1) as nat;
        let command = self.commands[i as int];
        assert(t.instant(0) == t.begin);
        if i > 0 {
            self.lemma_played_first(echo, i);
        } else {
            assert(self.played(echo, 0).len() == 0);
            assert(command.opening(t.begin).len() > 0);
            assert(command.opening(t.begin)[0].time == t.begin);
            assert(command.events(t, 0, echo)[0] == command.opening(t.begin)[0]);
        }
    }

    /// A recording runs forward: no event happens before one written ahead of
    /// it, none after the end time, and if the sequence has a command, the
    /// first event happens at the moment the begin delay is over.
    pub proof fn lemma_recording_in_order(self, echo: bool)
        requires
            0 < self.timings.speed,
        ensures
            in_order(self.recording(echo)),
            within(self.recording(echo), self.timings.begin, self.end_time()),
            self.commands.len() > 0 ==> self.recording(echo).len() > 0 && self.recording(
                echo,
            )[0].time == self.timings.begin,
    {
        let t = self.timings;
        let n = self.commands.len();
        self.lemma_played_in_order(echo, n);
        t.lemma_instant_monotone(0, self.script_time());
        assert(t.instant(0) == t.begin);
        lemma_joined(
            self.played(echo, n),
            self.closing(),
            t.begin,
            t.instant(self.script_time()),
            self.end_time(),
        );
        if n > 0 {
            self.lemma_played_first(echo, n);
            assert(self.recording(echo)[0] == self.played(echo, n)[0]);
        }
    }
}

/// `events` played at another speed: the delay of each event behind `base` is
/// divided by the speed, which is in thousandths, and cut down to whole
/// milliseconds. Kinds and texts stay.
pub open spec fn rescaled(events: Seq<EventView>, base: nat, speed: nat) -> Seq<EventView> {
    Seq::new(
        events.len(),
        |i: int|
            EventView {
                time: base + (((events[i].time - base) as nat) * 1000) / speed,
                ..events[i]
            },
    )
}

/// Events joined and then played at another speed are the events played at
/// that speed and then joined.
proof fn lemma_rescaled_joined(
    first: Seq<EventView>,
    second: Seq<EventView>,
    base: nat,
    speed: nat,
)
    ensures
        rescaled(first + second, base, speed) == rescaled(first, base, speed) + rescaled(
            second,
            base,
            speed,
        ),
{
    assert(rescaled(first + second, base, speed) =~= rescaled(first, base, speed) + rescaled(
        second,
        base,
        speed,
    ));
}

impl CommandView {
    /// The comment and the prompt at another speed.
    proof fn lemma_opening_rescaled(self, t: TimingsView, start: nat, speed: nat)
        requires
            0 < speed,
        ensures
            self.opening(t.at_speed(speed).instant(start)) == rescaled(
                self.opening(t.at_speed(NOMINAL_SPEED as nat).instant(start)),
                t.begin,
                speed,
            ),
    {
        t.lemma_nominal_instant(start);
        assert(self.opening(t.at_speed(speed).instant(start)) =~= rescaled(
            self.opening(t.at_speed(NOMINAL_SPEED as nat).instant(start)),
            t.begin,
            speed,
        ));
    }

    /// The typed characters at another speed.
    proof fn lemma_typed_rescaled(
        self,
        t: TimingsView,
        start: nat,
        echo: bool,
        count: nat,
        speed: nat,
    )
        requires
            0 < speed,
        ensures
            self.typed(t.at_speed(speed), start, echo, count) == rescaled(
                self.typed(t.at_speed(NOMINAL_SPEED as nat), start, echo, count),
                t.begin,
                speed,
            ),
        decreases count,
    {
        let paced = t.at_speed(speed);
        let nominal = t.at_speed(NOMINAL_SPEED as nat);
        if count == 0 {
            assert(self.typed(paced, start, echo, count) =~= rescaled(
                self.typed(nominal, start, echo, count),
                t.begin,
                speed,
            ));
        } else {
            let i = (count - 1) as nat;
            let c = self.input[i as int];
            let script = start + t.key_offset(i);
            self.lemma_typed_rescaled(t, start, echo, i, speed);
            t.lemma_nominal_instant(script);
            assert(keystroke(paced.instant(script), c, echo) =~= rescaled(
                keystroke(nominal.instant(script), c, echo),
                t.begin,
                speed,
            ));
            lemma_rescaled_joined(
                self.typed(nominal, start, echo, i),
                keystroke(nominal.instant(script), c, echo),
                t.begin,
                speed,
            );
        }
    }

    /// One output at another speed.
    proof fn lemma_shown_output_rescaled(self, t: TimingsView, start: nat, index: nat, speed: nat)
        requires
            0 < speed,
        ensures
            self.shown_output(t.at_speed(speed), start, index) == rescaled(
                self.shown_output(t.at_speed(NOMINAL_SPEED as nat), start, index),
                t.begin,
                speed,
            ),
    {
        t.lemma_nominal_instant(start + t.reveal_offset(self.input.len(), index));
        assert(self.shown_output(t.at_speed(speed), start, index) =~= rescaled(
            self.shown_output(t.at_speed(NOMINAL_SPEED as nat), start, index),
            t.begin,
            speed,
        ));
    }

    /// The outputs at another speed.
    proof fn lemma_revealed_rescaled(self, t: TimingsView, start: nat, count: nat, speed: nat)
        requires
            0 < speed,
        ensures
            self.revealed(t.at_speed(speed), start, count) == rescaled(
                self.revealed(t.at_speed(NOMINAL_SPEED as nat), start, count),
                t.begin,
                speed,
            ),
        decreases count,
    {
        let paced = t.at_speed(speed);
        let nominal = t.at_speed(NOMINAL_SPEED as nat);
        if count == 0 {
            assert(self.revealed(paced, start, count) =~= rescaled(
                self.revealed(nominal, start, count),
                t.begin,
                speed,
            ));
        } else {
            let j = (count - 1) as nat;
            self.lemma_revealed_rescaled(t, start, j, speed);
            self.lemma_shown_output_rescaled(t, start, j, speed);
            lemma_rescaled_joined(
                self.revealed(nominal, start, j),
                self.shown_output(nominal, start, j),
                t.begin,
                speed,
            );
        }
    }

    /// Played at another speed, a command gives the events it gives at nominal
    /// speed, each with its delay behind the begin delay divided by the speed.
    pub proof fn lemma_events_rescaled(self, t: TimingsView, start: nat, echo: bool, speed: nat)
        requires
            0 < speed,
        ensures
            self.span(t.at_speed(speed)) == self.span(t),
            self.events(t.at_speed(speed), start, echo) == rescaled(
                self.events(t.at_speed(NOMINAL_SPEED as nat), start, echo),
                t.begin,
                speed,
            ),
    {
        let nominal = t.at_speed(NOMINAL_SPEED as nat);
        let n = self.input.len();
        let m = self.outputs.len();
        self.lemma_opening_rescaled(t, start, speed);
        self.lemma_typed_rescaled(t, start, echo, n, speed);
        self.lemma_revealed_rescaled(t, start, m, speed);
        lemma_rescaled_joined(
            self.opening(nominal.instant(start)),
            self.typed(nominal, start, echo, n),
            t.begin,
            speed,
        );
        lemma_rescaled_joined(
            self.opening(nominal.instant(start)) + self.typed(nominal, start, echo, n),
            self.revealed(nominal, start, m),
            t.begin,
            speed,
        );
    }
}

impl SequenceView {
    /// This sequence played at another speed.
    pub open spec fn at_speed(self, speed: nat) -> SequenceView {
        SequenceView { timings: self.timings.at_speed(speed), ..self }
    }

    /// The script does not change with the speed it is played at.
    pub proof fn lemma_elapsed_at_speed(self, count: nat, speed: nat)
        ensures
            self.at_speed(speed).elapsed(count) == self.elapsed(count),
        decreases count,
    {
        if count > 0 {
            self.lemma_elapsed_at_speed((count - 1) as nat, speed);
        }
    }

    /// The events of the first commands at another speed.
    proof fn lemma_played_rescaled(self, echo: bool, count: nat, speed: nat)
        requires
            0 < speed,
        ensures
            self.at_speed(speed).played(echo, count) == rescaled(
                self.at_speed(NOMINAL_SPEED as nat).played(echo, count),
                self.timings.begin,
                speed,
            ),
        decreases count,
    {
        let paced = self.at_speed(speed);
        let nominal = self.at_speed(NOMINAL_SPEED as nat);
        if count == 0 {
            assert(paced.played(echo, count) =~= rescaled(
                nominal.played(echo, count),
                self.timings.begin,
                speed,
            ));
        } else {
            let i = (count - 1) as nat;
            let command = self.commands[i as int];
            self.lemma_played_rescaled(echo, i, speed);
            self.lemma_elapsed_at_speed(i, speed);
            self.lemma_elapsed_at_speed(i, NOMINAL_SPEED as nat);
            command.lemma_events_rescaled(self.timings, self.elapsed(i), echo, speed);
            lemma_rescaled_joined(
                nominal.played(echo, i),
                command.events(nominal.timings, self.elapsed(i), echo),
                self.timings.begin,
                speed,
            );
        }
    }

    /// Speed divides delays. Played at a speed of `speed` thousandths, a
    /// sequence gives the events it gives at nominal speed, with the same
    /// kinds and texts, and with every delay divided by the speed and cut down
    /// to whole milliseconds: for the events of the commands the delay behind
    /// the begin delay, for the frame that holds the last picture the delay
    /// behind the begin and end delays, which no speed changes.
    pub proof fn lemma_speed_divides_delays(self, echo: bool, speed: nat)
        requires
            0 < speed,
        ensures
            self.at_speed(speed).played(echo, self.commands.len()) == rescaled(
                self.at_speed(NOMINAL_SPEED as nat).played(echo, self.commands.len()),
                self.timings.begin,
                speed,
            ),
            self.at_speed(speed).closing() == rescaled(
                self.at_speed(NOMINAL_SPEED as nat).closing(),
                self.timings.begin + self.timings.end,
                speed,
            ),
            self.at_speed(speed).recording(echo).len() == self.at_speed(
                NOMINAL_SPEED as nat,
            ).recording(echo).len(),
    {
        let n = self.commands.len();
        self.lemma_played_rescaled(echo, n, speed);
        self.lemma_elapsed_at_speed(n, speed);
        self.lemma_elapsed_at_speed(n, NOMINAL_SPEED as nat);
        self.timings.lemma_nominal_instant(self.script_time());
        assert(self.at_speed(speed).closing() =~= rescaled(
            self.at_speed(NOMINAL_SPEED as nat).closing(),
            self.timings.begin + self.timings.end,
            speed,
        ));
    }
}

impl Command {
    /// Script time from the start of this command to the start of the next,
    /// unless it is past what a `u64` holds.
    pub fn span(&self, timings: &Timings) -> (script: Option<u64>)
        ensures
            self@.span(timings@) <= u64::MAX ==> script == Some(self@.span(timings@) as u64),
            self@.span(timings@) > u64::MAX ==> script is None,
    {
        let chars: u64 = self.input().unicode_len() as u64;
        let outputs: u64 = self.outputs().len() as u64;
        timings.span(chars, outputs)
    }
}

impl Sequence {
    /// Script time that the whole sequence takes, unless it is past what a
    /// `u64` holds.
    pub fn script_time(&self) -> (script: Option<u64>)
        ensures
            self@.script_time() <= u64::MAX ==> script == Some(self@.script_time() as u64),
            self@.script_time() > u64::MAX ==> script is None,
    {
        let timings = self.timings();
        let commands = self.commands();
        let ghost s = self@;
        let mut total: u64 = 0;
        let mut i: usize = 0;
        while i < commands.len()
            invariant
                0 <= i <= commands.len(),
                s == self@,
                commands.deep_view() == s.commands,
                timings@ == s.timings,
                total == s.elapsed(i as nat),
            decreases commands.len() - i,
        {
            proof {
                assert(commands[i as int]@ == s.commands[i as int]);
                assert(s.elapsed((i + 1) as nat) == s.elapsed(i as nat) + s.commands[i as int].span(
                    s.timings,
                ));
                s.lemma_elapsed_monotone((i + 1) as nat, s.commands.len());
            }
            let span: u64 = commands[i].span(timings)?;
            total = total.checked_add(span)?;
            i = i + 1;
        }
        Some(total)
    }

    /// Clock time at which the recording is over, unless that or the script
    /// time is past what a `u64` holds.
    pub fn end_time(&self) -> (clock: Option<u64>)
        ensures
            self@.fits() ==> clock == Some(self@.end_time() as u64),
            !self@.fits() ==> clock is None,
    {
        let script: u64 = self.script_time()?;
        let done: u64 = self.timings().instant(script)?;
        done.checked_add(self.timings().end())
    }
}

} // verus!
