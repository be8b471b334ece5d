//! Processes: the status line of one, and the connections that its network
//! namespace tracks.

use vstd::prelude::*;
use vstd::slice::slice_to_vec;
use vstd::string::*;

use regex::bytes::Regex;

use crate::conntrack::{parse_table_result, Conntrack};
use crate::decimal::{decimal_number, parse_decimal};
use crate::pattern::{
    captures, group_at, groups_view, has_groups, regex_captures, regex_compiles,
};
use crate::text::{ascii, trim, trimmed, word_is};

verus! {

/// The layout of a status line: the process id, the name of the executable in
/// round brackets, the state letter and two numbers. The groups in use are,
/// by number: the name (2), the state (3) and the two numbers (5, 6).
pub const STAT_PATTERN: &'static str =
    r"^(?P<pid>\d+) \((?P<exec>.*)\) (?P<state>(S|R|D|Z)) (?P<user_id>\d+) (?P<group_id>\d+)";

/// The largest value of a numeric field.
pub const ID_MAX: u32 = 0x7fff_ffff;

/// What a process is doing.
#[derive(Clone, Copy, Debug, PartialEq, Eq)]
pub enum PidState {
    Running,
    Sleeping,
    SleepingUninterruptibleWait,
    Zombie,
    Unknown,
}

/// Why the data of a process could not be read.
#[derive(Clone, Copy, Debug, PartialEq, Eq)]
pub enum PidError {
    /// The text is not in the expected layout, or the pattern of the layout
    /// could not be compiled.
    ParserError,
}

/// The status of one process.
#[derive(Clone, Debug, PartialEq, Eq)]
pub struct PidStat {
    pid: String,
    executable_name: Vec<u8>,
    state: PidState,
    uid: i32,
    gid: i32,
}

/// What a `PidStat` holds.
pub struct PidStatView {
    pub pid: Seq<char>,
    pub executable_name: Seq<u8>,
    pub state: PidState,
    pub uid: i32,
    pub gid: i32,
}

impl View for PidStat {
    type V = PidStatView;

    closed spec fn view(&self) -> PidStatView {
        PidStatView {
            pid: self.pid@,
            executable_name: self.executable_name@,
            state: self.state,
            uid: self.uid,
            gid: self.gid,
        }
    }
}

impl PidStat {
    /// The process id that the status was asked for.
    pub fn pid(&self) -> (r: &str)
        ensures
            r@ == self@.pid,
    {
        self.pid.as_str()
    }

    /// The name of the executable, as the bytes between the brackets.
    pub fn executable_name(&self) -> (r: &[u8])
        ensures
            r@ == self@.executable_name,
    {
        self.executable_name.as_slice()
    }

    /// What the process is doing.
    pub fn state(&self) -> (r: PidState)
        ensures
            r == self@.state,
    {
        self.state
    }

    /// The first number after the state.
    pub fn uid(&self) -> (r: i32)
        ensures
            r == self@.uid,
    {
        self.uid
    }

    /// The second number after the state.
    pub fn gid(&self) -> (r: i32)
        ensures
            r == self@.gid,
    {
        self.gid
    }
}

/// The state that a state letter names.
pub open spec fn pid_state_of(token: Seq<u8>) -> PidState {
    if token == ascii("S"@) {
        PidState::Sleeping
    } else if token == ascii("R"@) {
        PidState::Running
    } else if token == ascii("D"@) {
        PidState::SleepingUninterruptibleWait
    } else if token == ascii("Z"@) {
        PidState::Zombie
    } else {
        PidState::Unknown
    }
}

/// Decodes a state letter; any other token gives `Unknown`.
pub fn decode_pid_state(token: &[u8]) -> (r: PidState)
    ensures
        r == pid_state_of(token@),
{
    proof {
        reveal_strlit("S");
        reveal_strlit("R");
        reveal_strlit("D");
        reveal_strlit("Z");
    }
    if word_is(token, "S") {
        PidState::Sleeping
    } else if word_is(token, "R") {
        PidState::Running
    } else if word_is(token, "D") {
        PidState::SleepingUninterruptibleWait
    } else if word_is(token, "Z") {
        PidState::Zombie
    } else {
        PidState::Unknown
    }
}

/// The status that the capture groups of a status line describe, for the
/// process `pid`. It is one only if the groups in use took part in the match
/// and both numbers are decimal numbers that fit.
pub open spec fn stat_of_captures(pid: Seq<char>, groups: Seq<Option<Seq<u8>>>) -> Result<
    PidStatView,
    PidError,
> {
    if !has_groups(groups, 6) {
        Err(PidError::ParserError)
    } else {
        let uid = decimal_number(groups[5]->0, ID_MAX as nat);
        let gid = decimal_number(groups[6]->0, ID_MAX as nat);
        if uid is Some && gid is Some {
            Ok(
                PidStatView {
                    pid,
                    executable_name: groups[2]->0,
                    state: pid_state_of(groups[3]->0),
                    uid: uid->0 as i32,
                    gid: gid->0 as i32,
                },
            )
        } else {
            Err(PidError::ParserError)
        }
    }
}

/// Whether `r` is `expected`, with the same contents.
pub open spec fn same_stat(r: Result<PidStat, PidError>, expected: Result<PidStatView, PidError>)
    -> bool {
    match r {
        Ok(stat) => expected == Ok::<PidStatView, PidError>(stat@),
        Err(e) => expected == Err::<PidStatView, PidError>(e),
    }
}

/// Reads a numeric field of a status line.
fn parse_id(bytes: &[u8]) -> (r: Option<i32>)
    ensures
        r matches Some(n) ==> n >= 0 && decimal_number(bytes@, ID_MAX as nat) == Some(n as nat),
        r is None ==> decimal_number(bytes@, ID_MAX as nat) is None,
{
    match parse_decimal(bytes, ID_MAX) {
        Some(n) => Some(n as i32),
        None => None,
    }
}

/// Builds the status that the capture groups of a status line describe.
pub fn stat_from_captures(pid: &str, groups: &Vec<Option<Vec<u8>>>) -> (r: Result<
    PidStat,
    PidError,
>)
    ensures
        same_stat(r, stat_of_captures(pid@, groups_view(groups@))),
{
    if groups.len() <= 6 {
        return Err(PidError::ParserError);
    }
    if group_at(groups, 1).is_none() || group_at(groups, 4).is_none() {
        return Err(PidError::ParserError);
    }
    let name = match group_at(groups, 2) {
        Some(bytes) => bytes,
        None => { return Err(PidError::ParserError); },
    };
    let state_token = match group_at(groups, 3) {
        Some(bytes) => bytes,
        None => { return Err(PidError::ParserError); },
    };
    let uid_digits = match group_at(groups, 5) {
        Some(bytes) => bytes,
        None => { return Err(PidError::ParserError); },
    };
    let gid_digits = match group_at(groups, 6) {
        Some(bytes) => bytes,
        None => { return Err(PidError::ParserError); },
    };
    assert(has_groups(groups_view(groups@), 6));
    let uid: i32 = match parse_id(uid_digits) {
        Some(n) => n,
        None => { return Err(PidError::ParserError); },
    };
    let gid: i32 = match parse_id(gid_digits) {
        Some(n) => n,
        None => { return Err(PidError::ParserError); },
    };
    Ok(
        PidStat {
            pid: pid.to_owned(),
            executable_name: slice_to_vec(name),
            state: decode_pid_state(state_token),
            uid,
            gid,
        },
    )
}

/// The status that the contents of a status file describe, for the process
/// `pid`: what the first match of the layout in the contents, without the
/// blank space around them, describes.
pub open spec fn stat_record(pid: Seq<char>, content: Seq<u8>) -> Result<PidStatView, PidError> {
    if !regex_compiles(STAT_PATTERN@) {
        Err(PidError::ParserError)
    } else {
        match regex_captures(STAT_PATTERN@, trim(content)) {
            Some(groups) => stat_of_captures(pid, groups),
            None => Err(PidError::ParserError),
        }
    }
}

/// Reads the status of the process `pid` from the contents of its status
/// file.
pub fn get_stat(pid: &str, content: &[u8]) -> (r: Result<PidStat, PidError>)
    ensures
        same_stat(r, stat_record(pid@, content@)),
{
    let layout = match Regex::new(STAT_PATTERN) {
        Ok(layout) => layout,
        Err(_) => { return Err(PidError::ParserError); },
    };
    match captures(&layout, trimmed(content)) {
        Some(groups) => stat_from_captures(pid, &groups),
        None => Err(PidError::ParserError),
    }
}

/// A connection that the network namespace of a process tracks.
#[derive(Clone, Debug, PartialEq, Eq)]
pub struct ProcessConntrack {
    pub pid: String,
    pub entry: Conntrack,
}

/// Whether `r` holds the connections `expected`, in their order and each
/// with the process id `pid`, or fails where `expected` is a failure.
pub open spec fn same_process_records(
    r: Result<Vec<ProcessConntrack>, PidError>,
    pid: Seq<char>,
    expected: Result<Seq<Conntrack>, crate::conntrack::NetworkError>,
) -> bool {
    match r {
        Ok(records) => {
            &&& expected matches Ok(entries)
            &&& records.len() == entries.len()
            &&& forall|i: int|
                0 <= i < records.len() ==> (#[trigger] records[i]).pid@ == pid && records[i].entry
                    == entries[i]
        },
        Err(_) => expected is Err,
    }
}

/// Reads the connection-tracking table of the network namespace of the
/// process `pid`.
pub fn get_conntrack(pid: &str, text: &[u8]) -> (r: Result<Vec<ProcessConntrack>, PidError>)
    ensures
        same_process_records(r, pid@, parse_table_result(text@)),
{
    let entries = match crate::conntrack::parse_table(text) {
        Ok(entries) => entries,
        Err(_) => { return Err(PidError::ParserError); },
    };
    let mut records: Vec<ProcessConntrack> = Vec::new();
    let mut i: usize = 0;
    while i < entries.len()
        invariant
            i <= entries.len(),
            records.len() == i,
            forall|j: int|
                0 <= j < i ==> (#[trigger] records[j]).pid@ == pid@ && records[j].entry
                    == entries[j],
        decreases entries.len() - i,
    {
        records.push(ProcessConntrack { pid: pid.to_owned(), entry: entries[i] });
        i += 1;
    }
    Ok(records)
}

} // verus!
