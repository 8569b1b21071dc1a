//! The punch clock itself: the time worked so far, and the session that is
//! open, if one is.

use vstd::prelude::*;
use vstd::string::StringExecFns;
use crate::record::parse_line;
use crate::record::record_of;
use crate::record::Action;
use crate::record::Fault;
use crate::record::LineError;
use crate::record::LogEntry;
use crate::session::faults_of;
use crate::session::SessionState;
use crate::text::clock_text;
use crate::text::push_two_digits;
use crate::timestamp::seconds_between;
use crate::timestamp::Timestamp;

verus! {

/// A punch clock.
#[derive(Debug)]
pub struct TimeKeeper {
    total_worked_time: u64,
    last_clock_in_time: Option<Timestamp>,
    is_clocked_in: bool,
}

impl View for TimeKeeper {
    type V = SessionState;

    closed spec fn view(&self) -> SessionState {
        SessionState {
            accumulated: self.total_worked_time as nat,
            open_since: match self.last_clock_in_time {
                Some(time) => Some(time@),
                None => None,
            },
        }
    }
}

impl TimeKeeper {
    #[verifier::type_invariant]
    spec fn consistent(self) -> bool {
        self.is_clocked_in == (self.last_clock_in_time is Some)
    }

    /// A clock that has recorded nothing: no time worked, no session open.
    pub fn new() -> (keeper: TimeKeeper)
        ensures
            keeper@ == SessionState::initial(),
    {
        TimeKeeper { total_worked_time: 0, last_clock_in_time: None, is_clocked_in: false }
    }

    /// Seconds worked in the sessions that have ended.
    pub fn total_seconds(&self) -> (seconds: u64)
        ensures
            seconds == self@.accumulated,
    {
        self.total_worked_time
    }

    /// When the open session began, if one is open.
    pub fn open_since(&self) -> (since: Option<Timestamp>)
        ensures
            since is Some <==> self@.open_since is Some,
            since matches Some(time) ==> self@.open_since == Some(time@),
    {
        self.last_clock_in_time
    }

    /// Whether a session is open.
    pub fn is_clocked_in(&self) -> (open: bool)
        ensures
            open == self@.is_open(),
    {
        proof {
            use_type_invariant(self);
        }
        self.is_clocked_in
    }

    /// Takes one record of the log into the state.
    pub fn apply(&mut self, entry: LogEntry)
        ensures
            final(self)@ == old(self)@.apply(entry@),
    {
        match entry.action {
            Action::ClockIn => {
                *self = TimeKeeper {
                    total_worked_time: self.total_worked_time,
                    last_clock_in_time: Some(entry.time),
                    is_clocked_in: true,
                };
            },
            Action::ClockOut => {
                if let Some(since) = self.last_clock_in_time {
                    let worked = seconds_between(since, entry.time);
                    *self = TimeKeeper {
                        total_worked_time: self.total_worked_time.saturating_add(worked),
                        last_clock_in_time: None,
                        is_clocked_in: false,
                    };
                }
            },
        }
    }

    /// Takes a record into the state and writes its line for the log.
    fn record(&mut self, entry: LogEntry) -> (line: String)
        ensures
            final(self)@ == old(self)@.apply(entry@),
            final(self)@ == old(self)@.step(line@),
            line@ == record_of(entry@),
    {
        let line = entry.to_line();
        self.apply(entry);
        line
    }

    /// Replays the lines of a log, in order, on top of the present state.
    /// Lines that are no records are skipped; the errors that are returned
    /// say why, one for each such line, in the order of the lines.
    pub fn load_logs(&mut self, lines: &Vec<String>) -> (errors: Vec<LineError>)
        ensures
            final(self)@ == old(self)@.replay(lines.deep_view()),
            errors.deep_view() == faults_of(lines.deep_view()),
    {
        let ghost start = self@;
        let ghost texts = lines.deep_view();
        let mut errors: Vec<LineError> = Vec::new();
        let mut i: usize = 0;
        assert(texts.take(0) =~= Seq::<Seq<char>>::empty());
        assert(errors.deep_view() =~= Seq::<Fault>::empty());
        while i < lines.len()
            invariant
                i <= lines.len(),
                texts == lines.deep_view(),
                self@ == start.replay(texts.take(i as int)),
                errors.deep_view() == faults_of(texts.take(i as int)),
            decreases lines.len() - i,
        {
            let ghost seen = errors.deep_view();
            proof {
                assert(texts.take(i + 1).drop_last() =~= texts.take(i as int));
                assert(texts.take(i + 1).last() == lines[i as int]@);
            }
            match parse_line(lines[i].as_str()) {
                Ok(entry) => {
                    self.apply(entry);
                },
                Err(error) => {
                    let ghost fault = error@;
                    errors.push(error);
                    assert(errors.deep_view() =~= seen.push(fault));
                },
            }
            i += 1;
        }
        assert(texts.take(i as int) =~= texts);
        errors
    }

    /// Clocks in at `now`, unless a session is open. Returns the record to
    /// append to the log, which replays to the same change of state; `None`
    /// where the command was refused.
    pub fn clock_in(&mut self, now: Timestamp) -> (written: Option<String>)
        ensures
            final(self)@ == old(self)@.clock_in(now@),
            match written {
                Some(line) => {
                    &&& old(self)@.clock_in_line(now@) == Some(line@)
                    &&& final(self)@ == old(self)@.step(line@)
                },
                None => old(self)@.clock_in_line(now@) is None,
            },
    {
        if self.is_clocked_in() {
            None
        } else {
            Some(self.record(LogEntry { action: Action::ClockIn, time: now }))
        }
    }

    /// Clocks out at `now`, if a session is open: its length, zero where `now`
    /// is not later than its beginning, is added to the time worked. Returns
    /// the record to append to the log, which replays to the same change of
    /// state; `None` where the command was refused.
    pub fn clock_out(&mut self, now: Timestamp) -> (written: Option<String>)
        ensures
            final(self)@ == old(self)@.clock_out(now@),
            match written {
                Some(line) => {
                    &&& old(self)@.clock_out_line(now@) == Some(line@)
                    &&& final(self)@ == old(self)@.step(line@)
                },
                None => old(self)@.clock_out_line(now@) is None,
            },
    {
        if self.is_clocked_in() {
            Some(self.record(LogEntry { action: Action::ClockOut, time: now }))
        } else {
            None
        }
    }

    /// The time worked in the sessions that have ended, as `HH:MM:SS`. An
    /// open session does not count.
    pub fn total_time(&self) -> (text: String)
        ensures
            text@ == clock_text(self@.accumulated),
    {
        let total = self.total_worked_time;
        let mut text = String::new();
        push_two_digits(&mut text, total / 3600);
        text.append(":");
        push_two_digits(&mut text, total % 3600 / 60);
        text.append(":");
        push_two_digits(&mut text, total % 60);
        proof {
            reveal_strlit(":");
            assert(":"@ =~= seq![':']);
            assert(text@ =~= clock_text(total as nat));
        }
        text
    }
}

} // verus!
