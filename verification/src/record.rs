//! The records of the log: one line each, `<action>: <timestamp>`.

use vstd::prelude::*;
use vstd::string::StringExecFns;
use vstd::string::StrSliceExecFns;
use crate::text::chars_of;
use crate::text::same_text;
use crate::timestamp::reads_back;
use crate::timestamp::text_of;
use crate::timestamp::timestamp_of;
use crate::timestamp::Timestamp;

verus! {

/// What a record reports.
#[derive(Clone, Copy, Debug, PartialEq, Eq, Structural)]
pub enum Action {
    /// A work session began.
    ClockIn,
    /// The open work session ended.
    ClockOut,
}

impl Action {
    /// The name under which the action is written in the log.
    pub open spec fn label(self) -> Seq<char> {
        match self {
            Action::ClockIn => "Clocked In"@,
            Action::ClockOut => "Clocked Out"@,
        }
    }

    /// The action that a name stands for, if it is one of the two names.
    pub open spec fn named(name: Seq<char>) -> Option<Action> {
        if name == "Clocked In"@ {
            Some(Action::ClockIn)
        } else if name == "Clocked Out"@ {
            Some(Action::ClockOut)
        } else {
            None
        }
    }

    /// The name under which the action is written in the log.
    pub fn name(&self) -> (name: &'static str)
        ensures
            name@ == self.label(),
    {
        match self {
            Action::ClockIn => "Clocked In",
            Action::ClockOut => "Clocked Out",
        }
    }

    /// Reads an action's name. Only the exact names are known.
    pub fn from_name(name: &str) -> (action: Option<Action>)
        ensures
            action == Action::named(name@),
    {
        if same_text(name, "Clocked In") {
            Some(Action::ClockIn)
        } else if same_text(name, "Clocked Out") {
            Some(Action::ClockOut)
        } else {
            None
        }
    }
}

/// Each name is read back as the action it was written for.
pub proof fn lemma_label_named(action: Action)
    ensures
        Action::named(action.label()) == Some(action),
{
    reveal_strlit("Clocked In");
    reveal_strlit("Clocked Out");
    assert("Clocked In"@.len() != "Clocked Out"@.len());
}

/// Whether the delimiter `": "` stands at position `i` of a line.
pub open spec fn delimiter_at(line: Seq<char>, i: int) -> bool {
    0 <= i && i + 1 < line.len() && line[i] == ':' && line[i + 1] == ' '
}

/// Whether position `i` holds the first delimiter of a line.
pub open spec fn first_delimiter(line: Seq<char>, i: int) -> bool {
    delimiter_at(line, i) && forall|j: int| 0 <= j < i ==> !delimiter_at(line, j)
}

/// The two fields of a line: what stands before its first delimiter and what
/// stands behind it. A line without a delimiter has no fields.
pub open spec fn fields_of(line: Seq<char>) -> Option<(Seq<char>, Seq<char>)> {
    if exists|i: int| first_delimiter(line, i) {
        let i = choose|i: int| first_delimiter(line, i);
        Some((line.take(i), line.skip(i + 2)))
    } else {
        None
    }
}

/// A line whose first delimiter stands at `i` splits there.
pub proof fn lemma_fields_at(line: Seq<char>, i: int)
    requires
        first_delimiter(line, i),
    ensures
        fields_of(line) == Some((line.take(i), line.skip(i + 2))),
{
    let k = choose|k: int| first_delimiter(line, k);
    assert(k == i) by {
        if k < i {
            assert(!delimiter_at(line, k));
        }
        if i < k {
            assert(!delimiter_at(line, i));
        }
    }
}

/// A line with a delimiter has a first one, and so has fields.
pub proof fn lemma_fields_exist(line: Seq<char>, i: int)
    requires
        delimiter_at(line, i),
    ensures
        exists|k: int| 0 <= k <= i && first_delimiter(line, k),
        fields_of(line) is Some,
    decreases i,
{
    if exists|j: int| 0 <= j < i && delimiter_at(line, j) {
        let j = choose|j: int| 0 <= j < i && delimiter_at(line, j);
        lemma_fields_exist(line, j);
    } else {
        assert(first_delimiter(line, i));
    }
}

/// The position of the first delimiter among the characters of a line.
pub fn find_delimiter(chars: &Vec<char>) -> (found: Option<usize>)
    ensures
        match found {
            Some(i) => first_delimiter(chars@, i as int),
            None => forall|j: int| !delimiter_at(chars@, j),
        },
{
    let n = chars.len();
    if n < 2 {
        return None;
    }
    let mut i: usize = 0;
    while i < n - 1
        invariant
            n == chars.len(),
            2 <= n,
            i <= n - 1,
            forall|j: int| 0 <= j < i ==> !delimiter_at(chars@, j),
        decreases n - i,
    {
        if chars[i] == ':' && chars[i + 1] == ' ' {
            return Some(i);
        }
        i += 1;
    }
    None
}

/// Splits a line at its first delimiter.
pub fn split_fields(line: &str) -> (fields: Option<(&str, &str)>)
    ensures
        match fields {
            Some((name, time)) => fields_of(line@) == Some((name@, time@)),
            None => fields_of(line@) is None,
        },
{
    let chars = chars_of(line);
    let n = chars.len();
    match find_delimiter(&chars) {
        Some(i) => {
            proof {
                assert(delimiter_at(chars@, i as int));
                lemma_fields_at(line@, i as int);
            }
            let name = line.substring_char(0, i);
            let time = line.substring_char(i + 2, n);
            Some((name, time))
        },
        None => None,
    }
}

/// A record of the log, as the library holds it.
#[derive(Clone, Copy, Debug, PartialEq, Eq, Structural)]
pub struct LogEntry {
    /// What happened.
    pub action: Action,
    /// When it happened.
    pub time: Timestamp,
}

/// A record of the log, as contracts speak of it.
pub struct Entry {
    /// What happened.
    pub action: Action,
    /// When it happened: the view of the timestamp.
    pub at: int,
}

impl View for LogEntry {
    type V = Entry;

    open spec fn view(&self) -> Entry {
        Entry { action: self.action, at: self.time@ }
    }
}

/// Why a line of the log is no record.
#[derive(Debug, PartialEq, Eq)]
pub enum LineError {
    /// The line has no delimiter. Holds the line.
    Malformed { line: String },
    /// The first field is not the name of an action. Holds that field.
    UnknownAction { name: String },
    /// The second field is not a timestamp. Holds that field.
    BadTimestamp { text: String },
}

/// Why a line of the log is no record, as contracts speak of it.
pub enum Fault {
    /// The line has no delimiter.
    Malformed { line: Seq<char> },
    /// The first field, `name`, is not the name of an action.
    UnknownAction { name: Seq<char> },
    /// The second field, `text`, is not a timestamp.
    BadTimestamp { text: Seq<char> },
}

impl View for LineError {
    type V = Fault;

    open spec fn view(&self) -> Fault {
        match self {
            LineError::Malformed { line } => Fault::Malformed { line: line@ },
            LineError::UnknownAction { name } => Fault::UnknownAction { name: name@ },
            LineError::BadTimestamp { text } => Fault::BadTimestamp { text: text@ },
        }
    }
}

impl DeepView for LineError {
    type V = Fault;

    open spec fn deep_view(&self) -> Fault {
        self.view()
    }
}

impl Fault {
    /// The notice that reports the fault.
    pub open spec fn notice(self) -> Seq<char> {
        match self {
            Fault::Malformed { line } => "Malformed log entry: "@ + line,
            Fault::UnknownAction { name } => "Unknown action in log: "@ + name,
            Fault::BadTimestamp { text } => "Failed to parse timestamp: "@ + text,
        }
    }
}

impl LineError {
    /// The notice that reports the error.
    pub fn notice(&self) -> (notice: String)
        ensures
            notice@ == self@.notice(),
    {
        match self {
            LineError::Malformed { line } => {
                let mut notice = "Malformed log entry: ".to_owned();
                notice.append(line.as_str());
                notice
            },
            LineError::UnknownAction { name } => {
                let mut notice = "Unknown action in log: ".to_owned();
                notice.append(name.as_str());
                notice
            },
            LineError::BadTimestamp { text } => {
                let mut notice = "Failed to parse timestamp: ".to_owned();
                notice.append(text.as_str());
                notice
            },
        }
    }
}

/// What a line of the log says: its record, or why it is none.
///
/// The line is split at its first delimiter; the first field must name an
/// action, and the second must then be a timestamp.
pub open spec fn entry_of(line: Seq<char>) -> Result<Entry, Fault> {
    match fields_of(line) {
        None => Err(Fault::Malformed { line }),
        Some((name, text)) => match Action::named(name) {
            None => Err(Fault::UnknownAction { name }),
            Some(action) => match timestamp_of(text) {
                None => Err(Fault::BadTimestamp { text }),
                Some(at) => Ok(Entry { action, at }),
            },
        },
    }
}

/// Reads one line of the log.
pub fn parse_line(line: &str) -> (read: Result<LogEntry, LineError>)
    ensures
        match read {
            Ok(entry) => entry_of(line@) == Ok::<Entry, Fault>(entry@),
            Err(error) => entry_of(line@) == Err::<Entry, Fault>(error@),
        },
{
    match split_fields(line) {
        None => Err(LineError::Malformed { line: line.to_owned() }),
        Some((name, text)) => match Action::from_name(name) {
            None => Err(LineError::UnknownAction { name: name.to_owned() }),
            Some(action) => match Timestamp::parse(text) {
                None => Err(LineError::BadTimestamp { text: text.to_owned() }),
                Some(time) => Ok(LogEntry { action, time }),
            },
        },
    }
}

/// A line whose first field names no action is no record, whatever its second
/// field holds.
pub proof fn lemma_unknown_action(line: Seq<char>, i: int)
    requires
        first_delimiter(line, i),
        Action::named(line.take(i)) is None,
    ensures
        entry_of(line) == Err::<Entry, Fault>(Fault::UnknownAction { name: line.take(i) }),
{
    lemma_fields_at(line, i);
}

/// A line without a delimiter is no record.
pub proof fn lemma_no_delimiter(line: Seq<char>)
    requires
        forall|i: int| !delimiter_at(line, i),
    ensures
        entry_of(line) == Err::<Entry, Fault>(Fault::Malformed { line }),
{
}

/// The line made of two fields with the delimiter between them.
pub open spec fn joined(name: Seq<char>, text: Seq<char>) -> Seq<char> {
    name + ": "@ + text
}

/// Joins two fields with the delimiter.
pub fn join_fields(name: &str, text: &str) -> (line: String)
    ensures
        line@ == joined(name@, text@),
{
    let mut line = name.to_owned();
    line.append(": ");
    line.append(text);
    line
}

/// Splitting undoes joining, where the first field holds no delimiter.
pub proof fn lemma_split_joined(name: Seq<char>, text: Seq<char>)
    requires
        forall|j: int| !delimiter_at(name, j),
    ensures
        fields_of(joined(name, text)) == Some((name, text)),
{
    reveal_strlit(": ");
    let line = joined(name, text);
    let i = name.len() as int;
    assert(delimiter_at(line, i));
    assert forall|j: int| 0 <= j < i implies !delimiter_at(line, j) by {
        assert(!delimiter_at(name, j));
        assert(line[j] == name[j]);
    }
    lemma_fields_at(line, i);
    assert(line.take(i) =~= name);
    assert(line.skip(i + 2) =~= text);
}

/// The name of an action holds no delimiter.
pub proof fn lemma_label_plain(action: Action)
    ensures
        forall|j: int| !delimiter_at(action.label(), j),
{
    reveal_strlit("Clocked In");
    reveal_strlit("Clocked Out");
}

/// The line that is written for a record.
pub open spec fn record_of(entry: Entry) -> Seq<char> {
    joined(entry.action.label(), text_of(entry.at))
}

/// A record whose timestamp reads back is itself read back as written.
pub proof fn lemma_record_reads_back(entry: Entry)
    requires
        reads_back(entry.at),
    ensures
        entry_of(record_of(entry)) == Ok::<Entry, Fault>(entry),
{
    lemma_label_plain(entry.action);
    lemma_split_joined(entry.action.label(), text_of(entry.at));
    lemma_label_named(entry.action);
}

impl LogEntry {
    /// The line that is written to the log for this record. Reading the line
    /// gives the record back.
    pub fn to_line(&self) -> (line: String)
        ensures
            line@ == record_of(self@),
            entry_of(line@) == Ok::<Entry, Fault>(self@),
    {
        let text = self.time.format();
        proof {
            lemma_record_reads_back(self@);
        }
        join_fields(self.action.name(), text.as_str())
    }
}

} // verus!
