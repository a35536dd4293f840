//! Pacing: the delays of a recording and the speed they are played at.
//!
//! Every time in this library is a whole number of milliseconds. Two clocks are
//! told apart. *Script time* counts the delays as they are written down.
//! *Clock time* is what a player sees: the script time divided by the speed,
//! cut down to whole milliseconds, and counted from the begin delay. A speed is
//! held in thousandths, so that 1000 leaves the script as it is and 2000 plays
//! it twice as fast.

use vstd::prelude::*;
use vstd::arithmetic::div_mod::{
    lemma_div_by_multiple,
    lemma_div_is_ordered,
    lemma_fundamental_div_mod,
    lemma_mod_bound,
};
use vstd::arithmetic::mul::{
    lemma_mul_inequality,
    lemma_mul_is_commutative,
    lemma_mul_is_distributive_add_other_way,
};
use crate::error::Error;

verus! {

/// Milliseconds before the first command.
pub const DEFAULT_BEGIN_DELAY: u64 = 0;

/// Milliseconds the last frame is held.
pub const DEFAULT_END_DELAY: u64 = 1000;

/// Milliseconds before the first character of a command is typed.
pub const DEFAULT_DELAY_TYPE_START: u64 = 750;

/// Milliseconds between two typed characters.
pub const DEFAULT_DELAY_TYPE_CHAR: u64 = 35;

/// Milliseconds between the last character and the command's submission.
pub const DEFAULT_DELAY_TYPE_SUBMIT: u64 = 350;

/// Milliseconds between two outputs.
pub const DEFAULT_DELAY_OUTPUT_LINE: u64 = 500;

/// The speed, in thousandths, at which script time and clock time agree.
pub const NOMINAL_SPEED: u64 = 1000;

/// The speed of a recording that asks for none.
pub const DEFAULT_SPEED: u64 = 1000;

/// The largest value a delay or a speed can take.
pub const MAX_TIMING_VALUE: u64 = 0x7fff_ffff_ffff_ffff;

/// The seven values of a pacing.
#[derive(Clone, Copy, Debug, PartialEq, Eq, Structural)]
pub enum Field {
    Begin,
    End,
    TypeStart,
    TypeChar,
    TypeSubmit,
    OutputLine,
    Speed,
}

impl Field {
    /// Whether `value` can stand in this field: a speed is above zero, a delay
    /// is not below it.
    pub open spec fn takes(self, value: i64) -> bool {
        if self == Field::Speed {
            0 < value
        } else {
            0 <= value
        }
    }
}

/// The pacing of a recording as numbers.
pub struct TimingsView {
    pub begin: nat,
    pub end: nat,
    pub type_start: nat,
    pub type_char: nat,
    pub type_submit: nat,
    pub output_line: nat,
    pub speed: nat,
}

impl TimingsView {
    /// The speed is above zero, and every value is one that `Timings::new` takes.
    pub open spec fn wf(self) -> bool {
        &&& 0 < self.speed <= MAX_TIMING_VALUE
        &&& self.begin <= MAX_TIMING_VALUE
        &&& self.end <= MAX_TIMING_VALUE
        &&& self.type_start <= MAX_TIMING_VALUE
        &&& self.type_char <= MAX_TIMING_VALUE
        &&& self.type_submit <= MAX_TIMING_VALUE
        &&& self.output_line <= MAX_TIMING_VALUE
    }

    /// Script time at which character `index` of a command is typed, counted
    /// from the command's start.
    pub open spec fn key_offset(self, index: nat) -> nat {
        self.type_start + self.type_char * index
    }

    /// Script time that typing and submitting a command of `chars` characters takes.
    pub open spec fn typing_time(self, chars: nat) -> nat {
        self.type_start + self.type_char * chars + self.type_submit
    }

    /// Script time at which output `index` of a command of `chars` characters is
    /// shown, counted from the command's start. The first output has index 0.
    pub open spec fn reveal_offset(self, chars: nat, index: nat) -> nat {
        self.typing_time(chars) + self.output_line * (index + 1)
    }

    /// Script time that a command of `chars` characters and `outputs` outputs takes.
    pub open spec fn span(self, chars: nat, outputs: nat) -> nat {
        self.typing_time(chars) + self.output_line * outputs
    }

    /// Clock time that `script` milliseconds take at this speed, cut down to
    /// whole milliseconds.
    pub open spec fn scaled(self, script: nat) -> nat {
        (script * 1000) / self.speed
    }

    /// Clock time of the moment `script` milliseconds into the script.
    pub open spec fn instant(self, script: nat) -> nat {
        self.begin + self.scaled(script)
    }

    /// Clock time of the frame that is held once the script has run for
    /// `script` milliseconds.
    pub open spec fn hold_instant(self, script: nat) -> nat {
        self.instant(script) + self.end
    }

    /// This pacing with `value` in one field.
    pub open spec fn with(self, field: Field, value: nat) -> TimingsView {
        match field {
            Field::Begin => TimingsView { begin: value, ..self },
            Field::End => TimingsView { end: value, ..self },
            Field::TypeStart => TimingsView { type_start: value, ..self },
            Field::TypeChar => TimingsView { type_char: value, ..self },
            Field::TypeSubmit => TimingsView { type_submit: value, ..self },
            Field::OutputLine => TimingsView { output_line: value, ..self },
            Field::Speed => TimingsView { speed: value, ..self },
        }
    }

    /// This pacing with another speed.
    pub open spec fn at_speed(self, speed: nat) -> TimingsView {
        self.with(Field::Speed, speed)
    }

    /// What comes later in the script comes no earlier on the clock.
    pub proof fn lemma_instant_monotone(self, earlier: nat, later: nat)
        requires
            0 < self.speed,
            earlier <= later,
        ensures
            self.scaled(earlier) <= self.scaled(later),
            self.instant(earlier) <= self.instant(later),
    {
        lemma_div_is_ordered((earlier * 1000) as int, (later * 1000) as int, self.speed as int);
    }

    /// A clock time is the exact time cut down to whole milliseconds. The exact
    /// time of the moment `script` milliseconds into the script is
    /// `begin + script * 1000 / speed`, a fraction; `instant` is the largest
    /// whole number that is not above it.
    pub proof fn lemma_instant_truncates(self, script: nat)
        requires
            0 < self.speed,
        ensures
            self.instant(script) * self.speed <= self.begin * self.speed + script * 1000,
            self.begin * self.speed + script * 1000 < (self.instant(script) + 1) * self.speed,
    {
        let whole = self.scaled(script) as int;
        let speed = self.speed as int;
        lemma_fundamental_div_mod((script * 1000) as int, speed);
        lemma_mod_bound((script * 1000) as int, speed);
        lemma_mul_is_commutative(speed, whole);
        lemma_mul_is_distributive_add_other_way(speed, self.begin as int, whole);
        lemma_mul_is_distributive_add_other_way(speed, self.begin + whole, 1);
    }

    /// At nominal speed the clock runs with the script.
    pub proof fn lemma_nominal_instant(self, script: nat)
        ensures
            self.at_speed(NOMINAL_SPEED as nat).scaled(script) == script,
            self.at_speed(NOMINAL_SPEED as nat).instant(script) == self.begin + script,
    {
        lemma_div_by_multiple(script as int, 1000);
    }

    /// A later character is typed no earlier, and every character is typed
    /// before typing is over.
    pub proof fn lemma_key_offsets(self, index: nat, chars: nat)
        requires
            index <= chars,
        ensures
            self.type_char * index <= self.type_char * chars,
            self.key_offset(index) <= self.key_offset(chars) <= self.typing_time(chars),
    {
        lemma_mul_inequality(index as int, chars as int, self.type_char as int);
        lemma_mul_is_commutative(index as int, self.type_char as int);
        lemma_mul_is_commutative(chars as int, self.type_char as int);
    }

    /// An output is shown after typing is over, no earlier than the one before
    /// it, and no later than the command ends.
    pub proof fn lemma_reveal_offsets(self, chars: nat, index: nat, outputs: nat)
        requires
            index < outputs,
        ensures
            self.output_line * index <= self.output_line * (index + 1),
            self.output_line * (index + 1) <= self.output_line * outputs,
            self.span(chars, index) <= self.reveal_offset(chars, index),
            self.reveal_offset(chars, index) == self.span(chars, index + 1),
            self.reveal_offset(chars, index) <= self.span(chars, outputs),
    {
        lemma_mul_inequality(index as int, index as int + 1, self.output_line as int);
        lemma_mul_inequality(index as int + 1, outputs as int, self.output_line as int);
        lemma_mul_is_commutative(index as int, self.output_line as int);
        lemma_mul_is_commutative(index as int + 1, self.output_line as int);
        lemma_mul_is_commutative(outputs as int, self.output_line as int);
    }
}

/// The pacing of a recording: six delays in milliseconds and a speed in
/// thousandths. A value of this type always has a speed above zero.
#[derive(Clone, Copy, Debug, PartialEq, Eq, Structural)]
pub struct Timings {
    begin: u64,
    end: u64,
    type_start: u64,
    type_char: u64,
    type_submit: u64,
    output_line: u64,
    speed: u64,
}

impl View for Timings {
    type V = TimingsView;

    closed spec fn view(&self) -> TimingsView {
        TimingsView {
            begin: self.begin as nat,
            end: self.end as nat,
            type_start: self.type_start as nat,
            type_char: self.type_char as nat,
            type_submit: self.type_submit as nat,
            output_line: self.output_line as nat,
            speed: self.speed as nat,
        }
    }
}

/// Whether `Timings::new` takes these seven values: no delay is below zero and
/// the speed is above it.
pub open spec fn acceptable(
    begin: i64,
    end: i64,
    type_start: i64,
    type_char: i64,
    type_submit: i64,
    output_line: i64,
    speed: i64,
) -> bool {
    &&& Field::Begin.takes(begin)
    &&& Field::End.takes(end)
    &&& Field::TypeStart.takes(type_start)
    &&& Field::TypeChar.takes(type_char)
    &&& Field::TypeSubmit.takes(type_submit)
    &&& Field::OutputLine.takes(output_line)
    &&& Field::Speed.takes(speed)
}

/// The pacing that holds these seven values.
pub open spec fn values(
    begin: i64,
    end: i64,
    type_start: i64,
    type_char: i64,
    type_submit: i64,
    output_line: i64,
    speed: i64,
) -> TimingsView {
    TimingsView {
        begin: begin as nat,
        end: end as nat,
        type_start: type_start as nat,
        type_char: type_char as nat,
        type_submit: type_submit as nat,
        output_line: output_line as nat,
        speed: speed as nat,
    }
}

/// A pacing can be made again from the values it holds: `Timings::new` takes
/// them, and what it makes of them is the same pacing.
pub proof fn lemma_made_again(t: TimingsView)
    requires
        t.wf(),
    ensures
        acceptable(
            t.begin as i64,
            t.end as i64,
            t.type_start as i64,
            t.type_char as i64,
            t.type_submit as i64,
            t.output_line as i64,
            t.speed as i64,
        ),
        values(
            t.begin as i64,
            t.end as i64,
            t.type_start as i64,
            t.type_char as i64,
            t.type_submit as i64,
            t.output_line as i64,
            t.speed as i64,
        ) == t,
{
}

impl Timings {
    #[verifier::type_invariant]
    pub open spec fn wf(&self) -> bool {
        self@.wf()
    }

    /// Checks the seven values and keeps them. The delays are in milliseconds,
    /// the speed in thousandths.
    pub fn new(
        begin: i64,
        end: i64,
        type_start: i64,
        type_char: i64,
        type_submit: i64,
        output_line: i64,
        speed: i64,
    ) -> (made: Result<Timings, Error>)
        ensures
            match made {
                Ok(timings) => {
                    &&& acceptable(begin, end, type_start, type_char, type_submit, output_line, speed)
                    &&& timings@ == values(
                        begin,
                        end,
                        type_start,
                        type_char,
                        type_submit,
                        output_line,
                        speed,
                    )
                    &&& timings.wf()
                },
                Err(e) => {
                    &&& !acceptable(begin, end, type_start, type_char, type_submit, output_line, speed)
                    &&& e == Error::InvalidTimingValue
                },
            },
    {
        if begin < 0 || end < 0 || type_start < 0 || type_char < 0 || type_submit < 0
            || output_line < 0 || speed <= 0 {
            return Err(Error::InvalidTimingValue);
        }
        Ok(
            Timings {
                begin: begin as u64,
                end: end as u64,
                type_start: type_start as u64,
                type_char: type_char as u64,
                type_submit: type_submit as u64,
                output_line: output_line as u64,
                speed: speed as u64,
            },
        )
    }

    /// This pacing with `value` in one field, if the field takes it.
    pub fn with(self, field: Field, value: i64) -> (made: Result<Timings, Error>)
        ensures
            field.takes(value) ==> made is Ok && made->Ok_0@ == self@.with(field, value as nat),
            !field.takes(value) ==> made == Err::<Timings, Error>(Error::InvalidTimingValue),
            made is Ok ==> made->Ok_0.wf(),
    {
        proof {
            use_type_invariant(&self);
        }
        if value < 0 {
            return Err(Error::InvalidTimingValue);
        }
        let value: u64 = value as u64;
        match field {
            Field::Begin => Ok(Timings { begin: value, ..self }),
            Field::End => Ok(Timings { end: value, ..self }),
            Field::TypeStart => Ok(Timings { type_start: value, ..self }),
            Field::TypeChar => Ok(Timings { type_char: value, ..self }),
            Field::TypeSubmit => Ok(Timings { type_submit: value, ..self }),
            Field::OutputLine => Ok(Timings { output_line: value, ..self }),
            Field::Speed => {
                if value == 0 {
                    Err(Error::InvalidTimingValue)
                } else {
                    Ok(Timings { speed: value, ..self })
                }
            },
        }
    }

    /// Milliseconds before the first command.
    pub fn begin(&self) -> (ms: u64)
        ensures
            ms == self@.begin,
    {
        self.begin
    }

    /// Milliseconds the last frame is held.
    pub fn end(&self) -> (ms: u64)
        ensures
            ms == self@.end,
    {
        self.end
    }

    /// Milliseconds before the first character of a command is typed.
    pub fn type_start(&self) -> (ms: u64)
        ensures
            ms == self@.type_start,
    {
        self.type_start
    }

    /// Milliseconds between two typed characters.
    pub fn type_char(&self) -> (ms: u64)
        ensures
            ms == self@.type_char,
    {
        self.type_char
    }

    /// Milliseconds between the last character and the command's submission.
    pub fn type_submit(&self) -> (ms: u64)
        ensures
            ms == self@.type_submit,
    {
        self.type_submit
    }

    /// Milliseconds between two outputs.
    pub fn output_line(&self) -> (ms: u64)
        ensures
            ms == self@.output_line,
    {
        self.output_line
    }

    /// The speed in thousandths.
    pub fn speed(&self) -> (thousandths: u64)
        ensures
            thousandths == self@.speed,
    {
        self.speed
    }

    /// Script time that a command of `chars` characters and `outputs` outputs
    /// takes, unless it is past what a `u64` holds.
    pub fn span(&self, chars: u64, outputs: u64) -> (script: Option<u64>)
        ensures
            self@.span(chars as nat, outputs as nat) <= u64::MAX ==> script == Some(
                self@.span(chars as nat, outputs as nat) as u64,
            ),
            self@.span(chars as nat, outputs as nat) > u64::MAX ==> script is None,
    {
        let typing = self.type_char.checked_mul(chars)?;
        let started = self.type_start.checked_add(typing)?;
        let submitted = started.checked_add(self.type_submit)?;
        let showing = self.output_line.checked_mul(outputs)?;
        submitted.checked_add(showing)
    }

    /// Clock time of the moment `script` milliseconds into the script, unless
    /// it is past what a `u64` holds.
    pub fn instant(&self, script: u64) -> (clock: Option<u64>)
        ensures
            self@.instant(script as nat) <= u64::MAX ==> clock == Some(
                self@.instant(script as nat) as u64,
            ),
            self@.instant(script as nat) > u64::MAX ==> clock is None,
    {
        proof {
            use_type_invariant(self);
        }
        let scaled: u128 = (script as u128 * 1000) / (self.speed as u128);
        let clock: u128 = self.begin as u128 + scaled;
        if clock <= u64::MAX as u128 {
            Some(clock as u64)
        } else {
            None
        }
    }
}

/// The pacing of a recording that asks for none: no begin delay, a second of
/// hold, 750 ms before typing, 35 ms a character, 350 ms before submitting,
/// 500 ms an output, at nominal speed.
pub open spec fn default_timings() -> TimingsView {
    TimingsView {
        begin: DEFAULT_BEGIN_DELAY as nat,
        end: DEFAULT_END_DELAY as nat,
        type_start: DEFAULT_DELAY_TYPE_START as nat,
        type_char: DEFAULT_DELAY_TYPE_CHAR as nat,
        type_submit: DEFAULT_DELAY_TYPE_SUBMIT as nat,
        output_line: DEFAULT_DELAY_OUTPUT_LINE as nat,
        speed: DEFAULT_SPEED as nat,
    }
}

impl Default for Timings {
    fn default() -> (made: Self)
        ensures
            made@ == default_timings(),
            made.wf(),
    {
        Timings {
            begin: DEFAULT_BEGIN_DELAY,
            end: DEFAULT_END_DELAY,
            type_start: DEFAULT_DELAY_TYPE_START,
            type_char: DEFAULT_DELAY_TYPE_CHAR,
            type_submit: DEFAULT_DELAY_TYPE_SUBMIT,
            output_line: DEFAULT_DELAY_OUTPUT_LINE,
            speed: DEFAULT_SPEED,
        }
    }
}

} // verus!
