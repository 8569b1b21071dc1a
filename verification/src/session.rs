//! The state of a punch clock as contracts speak of it, how records and
//! commands change it, and what holds of replaying a log.

use vstd::prelude::*;
use crate::record::entry_of;
use crate::record::lemma_record_reads_back;
use crate::record::record_of;
use crate::record::Action;
use crate::record::Entry;
use crate::record::Fault;
use crate::timestamp::elapsed;
use crate::timestamp::reads_back;

verus! {

/// The state of a punch clock.
pub struct SessionState {
    /// Seconds worked in the sessions that have ended.
    pub accumulated: nat,
    /// When the open session began; `None` while no session is open.
    pub open_since: Option<int>,
}

/// The sum of two counts of seconds, held at the largest count that a clock
/// keeps.
pub open spec fn capped_sum(total: nat, more: nat) -> nat {
    if total + more > u64::MAX {
        u64::MAX as nat
    } else {
        total + more
    }
}

impl SessionState {
    /// The state of a clock that has recorded nothing.
    pub open spec fn initial() -> SessionState {
        SessionState { accumulated: 0, open_since: None }
    }

    /// Whether a session is open.
    pub open spec fn is_open(self) -> bool {
        self.open_since is Some
    }

    /// The state after a record of the log. A clock-in opens a session at its
    /// time, also where one was open. A clock-out closes the open session and
    /// adds its length to the time worked; with no session open it changes
    /// nothing.
    pub open spec fn apply(self, entry: Entry) -> SessionState {
        match entry.action {
            Action::ClockIn => SessionState {
                accumulated: self.accumulated,
                open_since: Some(entry.at),
            },
            Action::ClockOut => match self.open_since {
                Some(since) => SessionState {
                    accumulated: capped_sum(self.accumulated, elapsed(since, entry.at)),
                    open_since: None,
                },
                None => self,
            },
        }
    }

    /// The state after a line of the log: a line that is no record is skipped.
    pub open spec fn step(self, line: Seq<char>) -> SessionState {
        match entry_of(line) {
            Ok(entry) => self.apply(entry),
            Err(_) => self,
        }
    }

    /// The state after the lines of a log, taken in order.
    pub open spec fn replay(self, lines: Seq<Seq<char>>) -> SessionState
        decreases lines.len(),
    {
        if lines.len() == 0 {
            self
        } else {
            self.replay(lines.drop_last()).step(lines.last())
        }
    }

    /// The state after the command to clock in at `now`: the command is
    /// refused while a session is open.
    pub open spec fn clock_in(self, now: int) -> SessionState {
        if self.is_open() {
            self
        } else {
            self.apply(Entry { action: Action::ClockIn, at: now })
        }
    }

    /// The line that the command to clock in at `now` appends to the log;
    /// `None` where the command is refused.
    pub open spec fn clock_in_line(self, now: int) -> Option<Seq<char>> {
        if self.is_open() {
            None
        } else {
            Some(record_of(Entry { action: Action::ClockIn, at: now }))
        }
    }

    /// The state after the command to clock out at `now`: the command is
    /// refused while no session is open.
    pub open spec fn clock_out(self, now: int) -> SessionState {
        if self.is_open() {
            self.apply(Entry { action: Action::ClockOut, at: now })
        } else {
            self
        }
    }

    /// The line that the command to clock out at `now` appends to the log;
    /// `None` where the command is refused.
    pub open spec fn clock_out_line(self, now: int) -> Option<Seq<char>> {
        if self.is_open() {
            Some(record_of(Entry { action: Action::ClockOut, at: now }))
        } else {
            None
        }
    }

    /// The state after a command, given as the action and the time it asks
    /// for.
    pub open spec fn command(self, asked: Entry) -> SessionState {
        match asked.action {
            Action::ClockIn => self.clock_in(asked.at),
            Action::ClockOut => self.clock_out(asked.at),
        }
    }

    /// The line that a command appends to the log; `None` where it is refused.
    pub open spec fn command_line(self, asked: Entry) -> Option<Seq<char>> {
        match asked.action {
            Action::ClockIn => self.clock_in_line(asked.at),
            Action::ClockOut => self.clock_out_line(asked.at),
        }
    }
}

/// The state and the log after a run of commands, each of which changes the
/// state and appends its line to the log.
pub open spec fn after_commands(
    state: SessionState,
    log: Seq<Seq<char>>,
    asked: Seq<Entry>,
) -> (SessionState, Seq<Seq<char>>)
    decreases asked.len(),
{
    if asked.len() == 0 {
        (state, log)
    } else {
        let (before, written) = after_commands(state, log, asked.drop_last());
        (before.command(asked.last()), appended(written, before.command_line(asked.last())))
    }
}

/// The faults of the lines of a log that are no records, in the order of
/// the lines.
pub open spec fn faults_of(lines: Seq<Seq<char>>) -> Seq<Fault>
    decreases lines.len(),
{
    if lines.len() == 0 {
        Seq::empty()
    } else {
        match entry_of(lines.last()) {
            Ok(_) => faults_of(lines.drop_last()),
            Err(fault) => faults_of(lines.drop_last()).push(fault),
        }
    }
}

/// The last line of a log that is a record, if one is.
pub open spec fn last_entry(lines: Seq<Seq<char>>) -> Option<Entry>
    decreases lines.len(),
{
    if lines.len() == 0 {
        None
    } else {
        match entry_of(lines.last()) {
            Ok(entry) => Some(entry),
            Err(_) => last_entry(lines.drop_last()),
        }
    }
}

/// A log with a line appended, or the log itself where there is none to
/// append.
pub open spec fn appended(log: Seq<Seq<char>>, line: Option<Seq<char>>) -> Seq<Seq<char>> {
    match line {
        Some(line) => log.push(line),
        None => log,
    }
}

/// Replaying an empty log changes nothing: from the initial state it leaves
/// no time worked and no session open.
pub proof fn lemma_replay_empty(start: SessionState)
    ensures
        start.replay(Seq::empty()) == start,
        SessionState::initial().replay(Seq::empty()).accumulated == 0,
        !SessionState::initial().replay(Seq::empty()).is_open(),
{
}

/// Replaying a log with one more line is replaying the log and then taking
/// that line.
pub proof fn lemma_replay_push(start: SessionState, lines: Seq<Seq<char>>, line: Seq<char>)
    ensures
        start.replay(lines.push(line)) == start.replay(lines).step(line),
{
    assert(lines.push(line).drop_last() =~= lines);
}

/// Replaying two logs one after the other is replaying the second from
/// where the first ended.
pub proof fn lemma_replay_concat(
    start: SessionState,
    first: Seq<Seq<char>>,
    second: Seq<Seq<char>>,
)
    ensures
        start.replay(first + second) == start.replay(first).replay(second),
    decreases second.len(),
{
    if second.len() == 0 {
        assert(first + second =~= first);
    } else {
        lemma_replay_concat(start, first, second.drop_last());
        assert((first + second).drop_last() =~= first + second.drop_last());
        assert((first + second).last() == second.last());
    }
}

/// Replaying never takes from the time worked, nor leads past the largest
/// count that a clock keeps.
pub proof fn lemma_replay_keeps_time(start: SessionState, lines: Seq<Seq<char>>)
    requires
        start.accumulated <= u64::MAX,
    ensures
        start.accumulated <= start.replay(lines).accumulated <= u64::MAX,
    decreases lines.len(),
{
    if lines.len() > 0 {
        lemma_replay_keeps_time(start, lines.drop_last());
    }
}

/// A log that ends with a clock-in replays to an open session that began at
/// the time of that record, and to the time worked before it.
pub proof fn lemma_dangling_clock_in(
    start: SessionState,
    lines: Seq<Seq<char>>,
    line: Seq<char>,
    at: int,
)
    requires
        entry_of(line) == Ok::<Entry, Fault>(Entry { action: Action::ClockIn, at }),
    ensures
        start.replay(lines.push(line)).open_since == Some(at),
        start.replay(lines.push(line)).accumulated == start.replay(lines).accumulated,
{
    lemma_replay_push(start, lines, line);
}

/// A line that is no record changes nothing, wherever in the log it stands:
/// the log replays as it does without that line.
pub proof fn lemma_skipped_line(
    start: SessionState,
    before: Seq<Seq<char>>,
    line: Seq<char>,
    after: Seq<Seq<char>>,
)
    requires
        entry_of(line) is Err,
    ensures
        start.step(line) == start,
        start.replay(before.push(line) + after) == start.replay(before + after),
{
    lemma_replay_push(start, before, line);
    lemma_replay_concat(start, before.push(line), after);
    lemma_replay_concat(start, before, after);
}

/// A second command to clock in, with no clock-out between, is refused: it
/// appends nothing and leaves the state, and so the beginning of the open
/// session, as the first left it.
pub proof fn lemma_clock_in_twice(state: SessionState, first: int, second: int)
    ensures
        state.clock_in(first).is_open(),
        state.clock_in(first).clock_in_line(second) is None,
        state.clock_in(first).clock_in(second) == state.clock_in(first),
{
}

/// A command to clock out while no session is open is refused: it appends
/// nothing and leaves the state, and so the time worked, as it was.
pub proof fn lemma_clock_out_while_closed(state: SessionState, now: int)
    requires
        !state.is_open(),
    ensures
        state.clock_out_line(now) is None,
        state.clock_out(now) == state,
{
}

/// The line that a command appends replays to the change that the command
/// made; a refused command appends nothing and changes nothing.
pub proof fn lemma_command_replays(state: SessionState, now: int)
    requires
        reads_back(now),
    ensures
        match state.clock_in_line(now) {
            Some(line) => state.step(line) == state.clock_in(now),
            None => state.clock_in(now) == state,
        },
        match state.clock_out_line(now) {
            Some(line) => state.step(line) == state.clock_out(now),
            None => state.clock_out(now) == state,
        },
{
    lemma_record_reads_back(Entry { action: Action::ClockIn, at: now });
    lemma_record_reads_back(Entry { action: Action::ClockOut, at: now });
}

/// The log after the commands to clock in and then to clock out, with what
/// they appended, replays to the state that the commands left: a restart
/// finds the time worked that was reckoned live.
pub proof fn lemma_session_replays(
    start: SessionState,
    log: Seq<Seq<char>>,
    began: int,
    ended: int,
)
    requires
        reads_back(began),
        reads_back(ended),
    ensures
        ({
            let before = start.replay(log);
            let between = before.clock_in(began);
            let live = between.clock_out(ended);
            let written = appended(
                appended(log, before.clock_in_line(began)),
                between.clock_out_line(ended),
            );
            &&& start.replay(written) == live
            &&& !live.is_open()
            &&& !before.is_open() ==> live.accumulated == capped_sum(
                before.accumulated,
                elapsed(began, ended),
            )
        }),
{
    let before = start.replay(log);
    let between = before.clock_in(began);
    let first = appended(log, before.clock_in_line(began));
    lemma_command_replays(before, began);
    lemma_command_replays(between, ended);
    if let Some(line) = before.clock_in_line(began) {
        lemma_replay_push(start, log, line);
    }
    if let Some(line) = between.clock_out_line(ended) {
        lemma_replay_push(start, first, line);
    }
}

/// Whatever commands are given to a clock that was rebuilt from its log, the
/// log with what they appended replays to the state that they left.
pub proof fn lemma_log_follows_commands(
    start: SessionState,
    log: Seq<Seq<char>>,
    asked: Seq<Entry>,
)
    requires
        forall|i: int| 0 <= i < asked.len() ==> reads_back(#[trigger] asked[i].at),
    ensures
        ({
            let (state, written) = after_commands(start.replay(log), log, asked);
            start.replay(written) == state
        }),
    decreases asked.len(),
{
    if asked.len() > 0 {
        let earlier = asked.drop_last();
        assert forall|i: int| 0 <= i < earlier.len() implies reads_back(
            #[trigger] earlier[i].at,
        ) by {
            assert(earlier[i] == asked[i]);
        }
        lemma_log_follows_commands(start, log, earlier);
        let (before, written) = after_commands(start.replay(log), log, earlier);
        let last = asked.last();
        assert(reads_back(asked[asked.len() - 1].at));
        lemma_command_replays(before, last.at);
        if let Some(line) = before.command_line(last) {
            lemma_replay_push(start, written, line);
        }
    }
}

/// Whether a session is open after a log, and since when, is told by the last
/// record of the log alone: it is open exactly if that record is a clock-in,
/// and then since the time of that record. A log without records leaves the
/// session as it was.
pub proof fn lemma_open_by_last_record(start: SessionState, lines: Seq<Seq<char>>)
    ensures
        start.replay(lines).open_since == match last_entry(lines) {
            Some(entry) => match entry.action {
                Action::ClockIn => Some(entry.at),
                Action::ClockOut => None,
            },
            None => start.open_since,
        },
    decreases lines.len(),
{
    if lines.len() > 0 {
        lemma_open_by_last_record(start, lines.drop_last());
    }
}

} // verus!
