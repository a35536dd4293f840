//! The playback document: a header and a stream of timed events, and the way a
//! sequence is turned into that stream.

use vstd::prelude::*;
use vstd::string::StringExecFns;
use vstd::string::StrSliceExecFns;
use crate::error::Error;
use crate::recording::{crlf, keystroke, printed, shown, EventView};
use crate::sequence::{Command, Sequence};
use crate::text::{lines, split_lines};
use crate::timings::Timings;

verus! {

/// The version of the playback format.
pub const VERSION: usize = 2;

/// Rows of the terminal, unless the caller says otherwise.
pub const DEFAULT_HEIGHT: usize = 24;

/// Columns of the terminal, unless the caller says otherwise.
pub const DEFAULT_WIDTH: usize = 80;

/// The shell named in the header, unless the caller names one.
pub const DEFAULT_SHELL: &'static str = "/bin/sh";

/// The terminal named in the header, unless the caller names one.
pub const DEFAULT_TERM: &'static str = "xterm-256color";

/// How a shell is told to run a string as a command.
#[derive(Clone, Copy, Debug, PartialEq, Eq, Structural)]
pub enum ExecuteStringFlags {
    Unix,
    Pwsh,
    Cmd,
}

impl ExecuteStringFlags {
    /// The flag as the shell wants it written.
    pub open spec fn spec_to_string(self) -> Seq<char> {
        match self {
            ExecuteStringFlags::Unix => "-c"@,
            ExecuteStringFlags::Pwsh => "-Command"@,
            ExecuteStringFlags::Cmd => "/c"@,
        }
    }

    pub fn to_string(&self) -> (flag: String)
        ensures
            flag@ == self.spec_to_string(),
    {
        match self {
            ExecuteStringFlags::Unix => "-c".to_owned(),
            ExecuteStringFlags::Pwsh => "-Command".to_owned(),
            ExecuteStringFlags::Cmd => "/c".to_owned(),
        }
    }
}

impl Default for ExecuteStringFlags {
    fn default() -> (flag: Self)
        ensures
            flag == ExecuteStringFlags::Unix,
    {
        ExecuteStringFlags::Unix
    }
}

/// The shell and the terminal that the recording claims to come from.
#[derive(Debug)]
pub struct Env {
    pub shell: String,
    pub term: String,
    pub execute_string_flag: ExecuteStringFlags,
}

/// The text of `given`, or `fallback` where nothing is given.
pub open spec fn text_or(given: Option<String>, fallback: Seq<char>) -> Seq<char> {
    match given {
        Some(text) => text@,
        None => fallback,
    }
}

impl Env {
    /// The shell and the terminal as the caller found them, each replaced by
    /// its default where the caller found none, with the flag of a Unix shell.
    pub fn new(shell: Option<String>, term: Option<String>) -> (made: Self)
        ensures
            made.shell@ == text_or(shell, DEFAULT_SHELL@),
            made.term@ == text_or(term, DEFAULT_TERM@),
            made.execute_string_flag == ExecuteStringFlags::Unix,
    {
        Env {
            shell: match shell {
                Some(s) => s,
                None => DEFAULT_SHELL.to_owned(),
            },
            term: match term {
                Some(t) => t,
                None => DEFAULT_TERM.to_owned(),
            },
            execute_string_flag: ExecuteStringFlags::Unix,
        }
    }

    pub fn shell(&self) -> (s: &str)
        ensures
            s@ == self.shell@,
    {
        self.shell.as_str()
    }

    pub fn term(&self) -> (t: &str)
        ensures
            t@ == self.term@,
    {
        self.term.as_str()
    }
}

/// The colours a player is asked to use.
#[derive(Debug)]
pub struct Theme {
    pub foreground: String,
    pub background: String,
    pub palette: String,
}

/// A header with every field in sight.
pub struct HeaderView {
    pub version: usize,
    pub width: usize,
    pub height: usize,
    pub timestamp: Option<u64>,
    pub duration: Option<u64>,
    pub idle_time_limit: Option<u64>,
    pub command: Option<String>,
    pub title: Option<String>,
    pub env: Env,
    pub theme: Option<Theme>,
}

/// What stands in the first line of a playback document. `timestamp` is in
/// seconds since the Unix epoch; `duration` and `idle_time_limit` are in
/// milliseconds.
#[derive(Debug)]
pub struct Header {
    version: usize,
    pub width: usize,
    pub height: usize,
    pub timestamp: Option<u64>,
    pub duration: Option<u64>,
    pub idle_time_limit: Option<u64>,
    pub command: Option<String>,
    pub title: Option<String>,
    pub env: Env,
    pub theme: Option<Theme>,
}

impl View for Header {
    type V = HeaderView;

    closed spec fn view(&self) -> HeaderView {
        HeaderView {
            version: self.version,
            width: self.width,
            height: self.height,
            timestamp: self.timestamp,
            duration: self.duration,
            idle_time_limit: self.idle_time_limit,
            command: self.command,
            title: self.title,
            env: self.env,
            theme: self.theme,
        }
    }
}

impl Header {
    /// The header of a recording made at `timestamp` in the surroundings
    /// `env`: the current version, 80 columns, 24 rows, and nothing else.
    pub fn new(timestamp: Option<u64>, env: Env) -> (made: Self)
        ensures
            made@ == (HeaderView {
                version: VERSION,
                width: DEFAULT_WIDTH,
                height: DEFAULT_HEIGHT,
                timestamp,
                duration: None,
                idle_time_limit: None,
                command: None,
                title: None,
                env,
                theme: None,
            }),
    {
        Header {
            version: VERSION,
            width: DEFAULT_WIDTH,
            height: DEFAULT_HEIGHT,
            timestamp,
            duration: None,
            idle_time_limit: None,
            command: None,
            title: None,
            env,
            theme: None,
        }
    }

    pub fn version(&self) -> (v: usize)
        ensures
            v == self@.version,
    {
        self.version
    }
}

/// Whether an event shows text or records a key.
#[derive(Clone, Copy, Debug, PartialEq, Eq, Structural)]
pub enum EventKind {
    Printed,
    Keypress,
}

impl EventKind {
    /// The kind as a playback document writes it.
    pub open spec fn spec_to_string(self) -> Seq<char> {
        match self {
            EventKind::Printed => "o"@,
            EventKind::Keypress => "i"@,
        }
    }

    pub fn to_string(&self) -> (code: String)
        ensures
            code@ == self.spec_to_string(),
    {
        match self {
            EventKind::Printed => "o".to_owned(),
            EventKind::Keypress => "i".to_owned(),
        }
    }
}

/// One timed piece of a recording: the clock time in milliseconds, the kind,
/// and the text.
#[derive(Debug)]
pub struct Event(pub u64, pub EventKind, pub String);

impl View for Event {
    type V = EventView;

    open spec fn view(&self) -> EventView {
        EventView { time: self.0 as nat, kind: self.1, data: self.2@ }
    }
}

impl DeepView for Event {
    type V = EventView;

    open spec fn deep_view(&self) -> EventView {
        self@
    }
}

/// A playback document as plain values.
pub struct AsciicastView {
    pub header: Header,
    pub events: Seq<EventView>,
    pub stdin: bool,
}

/// A playback document in the making: the header, the events so far, and
/// whether each typed character is also written down as a key press.
#[derive(Debug)]
pub struct Asciicast {
    pub header: Header,
    events: Vec<Event>,
    pub stdin: bool,
}

impl View for Asciicast {
    type V = AsciicastView;

    closed spec fn view(&self) -> AsciicastView {
        AsciicastView { header: self.header, events: self.events.deep_view(), stdin: self.stdin }
    }
}

impl Asciicast {
    /// A document with this header and no events yet.
    pub fn new(header: Header, stdin: bool) -> (made: Self)
        ensures
            made@ == (AsciicastView { header, events: Seq::empty(), stdin }),
    {
        let made = Asciicast { header, events: Vec::new(), stdin };
        assert(made.events.deep_view() == Seq::<EventView>::empty());
        made
    }

    /// Puts one more event behind those the document has.
    pub fn add(&mut self, event: Event) -> (same: &mut Self)
        ensures
            same@ == (AsciicastView { events: old(self)@.events.push(event@), ..old(self)@ }),
            *final(self) == *final(same),
    {
        let ghost before = self.events.deep_view();
        self.events.push(event);
        assert(self.events.deep_view() == before.push(event@));
        self
    }

    /// Moves all of `events` behind those the document has, and leaves
    /// `events` empty.
    pub fn append(&mut self, events: &mut Vec<Event>) -> (same: &mut Self)
        ensures
            same@ == (AsciicastView {
                events: old(self)@.events + old(events).deep_view(),
                ..old(self)@
            }),
            *final(self) == *final(same),
            final(events)@ == Seq::<Event>::empty(),
    {
        let ghost before = self.events.deep_view();
        let ghost moved = events.deep_view();
        self.events.append(events);
        assert(self.events.deep_view() == before + moved);
        self
    }

    /// The events so far, first to last.
    pub fn events(&self) -> (e: &Vec<Event>)
        ensures
            e.deep_view() == self@.events,
    {
        &self.events
    }

    /// Writes the events of one command behind those the document has. The
    /// command starts `start_delay` milliseconds into the script; the result
    /// is the script time at which the next command starts. That time, and
    /// the clock time that goes with it, must be times that a `u64` holds;
    /// `append_from` sees to that by itself.
    pub fn add_command(&mut self, command: &Command, timings: &Timings, start_delay: u64) -> (next:
        u64)
        requires
            start_delay + command@.span(timings@) <= u64::MAX,
            timings@.instant((start_delay + command@.span(timings@)) as nat) <= u64::MAX,
        ensures
            final(self)@ == (AsciicastView {
                events: old(self)@.events + command@.events(
                    timings@,
                    start_delay as nat,
                    old(self)@.stdin,
                ),
                ..old(self)@
            }),
            next == start_delay + command@.span(timings@),
    {
        proof {
            use_type_invariant(timings);
        }
        let ghost t = timings@;
        let ghost c = command@;
        let ghost start = start_delay as nat;
        let ghost echo = self.stdin;
        let ghost before = self.events.deep_view();
        let ghost n = c.input.len();
        let ghost m = c.outputs.len();
        let ghost end = start + c.span(t);
        proof {
            t.lemma_instant_monotone(start, end);
        }
        let at: u64 = timings.instant(start_delay).unwrap();
        match command.comment() {
            Some(text) => {
                let mut data = text.to_owned();
                data.append("\r\n");
                self.events.push(Event(at, EventKind::Printed, data));
            },
            None => {},
        }
        self.events.push(Event(at, EventKind::Printed, command.prompt().to_owned()));
        let ghost opened = before + c.opening(t.instant(start));
        assert(self.events.deep_view() == opened);

        let outputs = command.outputs();
        let chars: u64 = command.input().unicode_len() as u64;
        proof {
            t.lemma_key_offsets(n, n);
        }
        let typing: u64 = timings.type_start() + timings.type_char() * chars
            + timings.type_submit();
        let mut i: u64 = 0;
        for ch in it: command.input().chars()
            invariant
                i == it.index(),
                it.seq() == c.input,
                n == c.input.len(),
                chars == n,
                t == timings@,
                0 < t.speed,
                start == start_delay,
                end == start + c.span(t),
                end <= u64::MAX,
                t.instant(end) <= u64::MAX,
                self.stdin == echo,
                self.header == old(self).header,
                self.events.deep_view() == opened + c.typed(t, start, echo, i as nat),
        {
            proof {
                t.lemma_key_offsets(i as nat, n);
                t.lemma_instant_monotone(start + t.key_offset(i as nat), end);
            }
            let offset: u64 = timings.type_start() + timings.type_char() * i;
            let time: u64 = timings.instant(start_delay + offset).unwrap();
            let ghost so_far = self.events.deep_view();
            if self.stdin {
                let mut key = String::new();
                key.push(ch);
                self.events.push(Event(time, EventKind::Keypress, key));
            }
            let mut shown = String::new();
            shown.push(ch);
            self.events.push(Event(time, EventKind::Printed, shown));
            proof {
                assert(ch == c.input[i as int]);
                assert(self.events.deep_view() == so_far + keystroke(time as nat, ch, echo));
                assert(opened + c.typed(t, start, echo, i as nat) + keystroke(time as nat, ch, echo)
                    == opened + c.typed(t, start, echo, (i + 1) as nat));
            }
            i = i + 1;
        }
        let ghost keyed = opened + c.typed(t, start, echo, n);
        assert(self.events.deep_view() == keyed);

        let mut j: usize = 0;
        while j < outputs.len()
            invariant
                0 <= j <= outputs.len(),
                outputs.deep_view() == c.outputs,
                m == c.outputs.len(),
                n == c.input.len(),
                t == timings@,
                0 < t.speed,
                start == start_delay,
                end == start + c.span(t),
                end <= u64::MAX,
                t.instant(end) <= u64::MAX,
                typing == t.typing_time(n),
                self.stdin == echo,
                self.header == old(self).header,
                self.events.deep_view() == keyed + c.revealed(t, start, j as nat),
            decreases outputs.len() - j,
        {
            proof {
                t.lemma_reveal_offsets(n, j as nat, m);
                t.lemma_instant_monotone(start + t.reveal_offset(n, j as nat), end);
            }
            let offset: u64 = typing + timings.output_line() * (j as u64 + 1);
            let time: u64 = timings.instant(start_delay + offset).unwrap();
            let ghost so_far = self.events.deep_view();
            if j == 0 {
                self.events.push(Event(time, EventKind::Printed, "\r\n".to_owned()));
            }
            let ghost led = so_far + c.submitted(t, start, j as nat);
            assert(self.events.deep_view() == led);
            let rows = split_lines(outputs[j].as_str());
            assert(rows.deep_view() == lines(c.outputs[j as int]));
            let mut k: usize = 0;
            while k < rows.len()
                invariant
                    0 <= k <= rows.len(),
                    self.stdin == echo,
                    self.header == old(self).header,
                    self.events.deep_view() == led + shown(rows.deep_view(), time as nat, k as nat),
                decreases rows.len() - k,
            {
                let ghost drawn = self.events.deep_view();
                let mut data = rows[k].clone();
                data.append("\r\n");
                self.events.push(Event(time, EventKind::Printed, data));
                proof {
                    assert(data@ == rows.deep_view()[k as int] + crlf());
                    assert(self.events.deep_view() == drawn.push(printed(time as nat, data@)));
                    assert(shown(rows.deep_view(), time as nat, (k + 1) as nat) == shown(
                        rows.deep_view(),
                        time as nat,
                        k as nat,
                    ).push(printed(time as nat, data@)));
                }
                k = k + 1;
            }
            proof {
                assert(led + shown(rows.deep_view(), time as nat, rows.len() as nat) == so_far
                    + c.shown_output(t, start, j as nat));
                assert(keyed + c.revealed(t, start, j as nat) + c.shown_output(t, start, j as nat)
                    == keyed + c.revealed(t, start, (j + 1) as nat));
            }
            j = j + 1;
        }
        proof {
            assert(keyed + c.revealed(t, start, m) == before + c.events(t, start, echo));
            if m > 0 {
                t.lemma_reveal_offsets(n, (m - 1) as nat, m);
            }
        }
        start_delay + typing + timings.output_line() * (outputs.len() as u64)
    }

    /// Writes the whole recording of `sequence` behind the events the document
    /// has: every command in turn, and the frame that holds the last picture.
    /// A sequence whose times a `u64` cannot hold is turned down, and the
    /// document stays as it is.
    pub fn append_from(&mut self, sequence: &Sequence) -> (done: Result<(), Error>)
        ensures
            sequence@.fits() ==> done is Ok && final(self)@ == (AsciicastView {
                events: old(self)@.events + sequence@.recording(old(self)@.stdin),
                ..old(self)@
            }),
            !sequence@.fits() ==> done == Err::<(), Error>(Error::RecordingTooLong) && *final(self)
                == *old(self),
    {
        let end_time: u64 = match sequence.end_time() {
            Some(time) => time,
            None => {
                return Err(Error::RecordingTooLong);
            },
        };
        let timings = sequence.timings();
        let commands = sequence.commands();
        let ghost s = sequence@;
        let ghost echo = self.stdin;
        let ghost before = self.events.deep_view();
        let mut cursor: u64 = 0;
        let mut i: usize = 0;
        while i < commands.len()
            invariant
                0 <= i <= commands.len(),
                commands.deep_view() == s.commands,
                timings@ == s.timings,
                0 < s.timings.speed,
                s.fits(),
                cursor == s.elapsed(i as nat),
                self.stdin == echo,
                self.header == old(self).header,
                self.events.deep_view() == before + s.played(echo, i as nat),
            decreases commands.len() - i,
        {
            proof {
                s.lemma_elapsed_monotone((i + 1) as nat, s.commands.len());
                s.timings.lemma_instant_monotone(s.elapsed((i + 1) as nat), s.script_time());
            }
            cursor = self.add_command(&commands[i], timings, cursor);
            proof {
                assert(commands[i as int]@ == s.commands[i as int]);
                assert(before + s.played(echo, i as nat) + s.commands[i as int].events(
                    s.timings,
                    s.elapsed(i as nat),
                    echo,
                ) == before + s.played(echo, (i + 1) as nat));
            }
            i = i + 1;
        }
        if timings.end() != 0 {
            let ghost played = self.events.deep_view();
            self.events.push(Event(end_time, EventKind::Printed, String::new()));
            assert(self.events.deep_view() == played + s.closing());
        }
        assert(before + s.played(echo, s.commands.len()) + s.closing() == before + s.recording(
            echo,
        ));
        Ok(())
    }
}

} // verus!
