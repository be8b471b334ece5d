//! The kernel's connection-tracking table, one tracked connection per line.
//!
//! A line that is not blank must hold an entry in the fixed layout of
//! `CONNTRACK_PATTERN`, with numbers that fit their fields and two addresses
//! of one family. One line that does not fails the whole table: a table is
//! read completely or not at all, and a failure is told apart from an empty
//! table by its error. A state token that names no known state is no such
//! failure: the entry is read with the state `Unknown`.

use vstd::prelude::*;
use vstd::string::*;

use regex::bytes::Regex;

use crate::address::{ip_from_text, parse_ip, SocketAddress};
use crate::decimal::{decimal_number, parse_decimal};
use crate::pattern::{
    captures, group_at, groups_view, has_groups, regex_captures, regex_compiles, regex_source,
};
use crate::text::{ascii, blank, is_blank, split, split_fields, views, word_is, LINE_FEED};

verus! {

/// The layout of one entry. The groups in use are, by number: the network
/// protocol and its code (1, 2), the transport protocol and its code (3, 4),
/// the timeout (5), the state (6), and source, destination, source port and
/// destination port of the forward direction (7 to 10). The state is any
/// token without blank space in it: which state it names, if any, is for
/// `state_of` to say.
pub const CONNTRACK_PATTERN: &'static str =
    r"(ipv4|ipv6)     (\d+) (tcp|udp)      (\d+) (\d+) (\S+) src=(.*) dst=(.*) sport=(\d+) dport=(\d+) src=(.*) dst=(.*) sport=(\d+) dport=(\d+) \[(ASSURED|UNREPLIED)\] mark=(\d) zone=(\d) use=(\d)";

/// The largest value of a numeric field.
pub const FIELD_MAX: u32 = 0x7fff_ffff;

/// The largest port.
pub const PORT_MAX: u32 = 0xffff;

/// The network-layer protocol of a tracked connection.
#[derive(Clone, Copy, Debug, PartialEq, Eq)]
pub enum NetworkProtocol {
    Unknown,
    Ipv4,
    Ipv6,
}

/// The transport protocol of a tracked connection.
#[derive(Clone, Copy, Debug, PartialEq, Eq)]
pub enum Family {
    Unknown,
    Tcp,
    Udp,
}

/// The state of a tracked connection.
#[derive(Clone, Copy, Debug, PartialEq, Eq)]
pub enum ConntrackState {
    Established,
    SynSent,
    SynRecv,
    FinWait1,
    FinWait2,
    TimeWait,
    Close,
    CloseWait,
    LastAck,
    Listen,
    Closing,
    Unknown,
}

/// Why a table could not be read.
#[derive(Clone, Copy, Debug, PartialEq, Eq)]
pub enum NetworkError {
    /// A line holds no entry in the expected layout, or the pattern of the
    /// layout could not be compiled.
    ParserError,
}

/// One tracked connection.
#[derive(Clone, Copy, Debug, PartialEq, Eq)]
pub struct Conntrack {
    pub network_protocol: NetworkProtocol,
    pub network_protocol_number: i32,
    pub protocol: Family,
    pub protocol_number: i32,
    pub timeout: i32,
    pub src: SocketAddress,
    pub dst: SocketAddress,
    pub state: ConntrackState,
}

impl Conntrack {
    /// Source and destination are addresses of one family.
    pub open spec fn wf(self) -> bool {
        self.src.ip.same_family(self.dst.ip)
    }
}

/// The network protocol that an address-family token names.
pub open spec fn network_protocol_of(token: Seq<u8>) -> NetworkProtocol {
    if token == ascii("ipv4"@) {
        NetworkProtocol::Ipv4
    } else if token == ascii("ipv6"@) {
        NetworkProtocol::Ipv6
    } else {
        NetworkProtocol::Unknown
    }
}

/// The transport protocol that a token names.
pub open spec fn family_of(token: Seq<u8>) -> Family {
    if token == ascii("tcp"@) {
        Family::Tcp
    } else if token == ascii("udp"@) {
        Family::Udp
    } else {
        Family::Unknown
    }
}

/// The connection state that a token names; a token that names none stands
/// for `Unknown`.
pub open spec fn state_of(token: Seq<u8>) -> ConntrackState {
    if token == ascii("ESTABLISHED"@) {
        ConntrackState::Established
    } else if token == ascii("SYN_SENT"@) {
        ConntrackState::SynSent
    } else if token == ascii("SYN_RECV"@) {
        ConntrackState::SynRecv
    } else if token == ascii("FIN_WAIT1"@) {
        ConntrackState::FinWait1
    } else if token == ascii("FIN_WAIT2"@) {
        ConntrackState::FinWait2
    } else if token == ascii("TIME_WAIT"@) {
        ConntrackState::TimeWait
    } else if token == ascii("CLOSE"@) {
        ConntrackState::Close
    } else if token == ascii("CLOSE_WAIT"@) {
        ConntrackState::CloseWait
    } else if token == ascii("LAST_ACK"@) {
        ConntrackState::LastAck
    } else if token == ascii("LISTEN"@) {
        ConntrackState::Listen
    } else if token == ascii("CLOSING"@) {
        ConntrackState::Closing
    } else {
        ConntrackState::Unknown
    }
}

/// Decodes an address-family token.
pub fn decode_network_protocol(token: &[u8]) -> (r: NetworkProtocol)
    ensures
        r == network_protocol_of(token@),
{
    proof {
        reveal_strlit("ipv4");
        reveal_strlit("ipv6");
    }
    if word_is(token, "ipv4") {
        NetworkProtocol::Ipv4
    } else if word_is(token, "ipv6") {
        NetworkProtocol::Ipv6
    } else {
        NetworkProtocol::Unknown
    }
}

/// Decodes a transport token.
pub fn decode_family(token: &[u8]) -> (r: Family)
    ensures
        r == family_of(token@),
{
    proof {
        reveal_strlit("tcp");
        reveal_strlit("udp");
    }
    if word_is(token, "tcp") {
        Family::Tcp
    } else if word_is(token, "udp") {
        Family::Udp
    } else {
        Family::Unknown
    }
}

/// Decodes a state token; a token that names no state gives `Unknown`.
pub fn decode_state(token: &[u8]) -> (r: ConntrackState)
    ensures
        r == state_of(token@),
{
    proof {
        reveal_strlit("ESTABLISHED");
        reveal_strlit("SYN_SENT");
        reveal_strlit("SYN_RECV");
        reveal_strlit("FIN_WAIT1");
        reveal_strlit("FIN_WAIT2");
        reveal_strlit("TIME_WAIT");
        reveal_strlit("CLOSE");
        reveal_strlit("CLOSE_WAIT");
        reveal_strlit("LAST_ACK");
        reveal_strlit("LISTEN");
        reveal_strlit("CLOSING");
    }
    if word_is(token, "ESTABLISHED") {
        ConntrackState::Established
    } else if word_is(token, "SYN_SENT") {
        ConntrackState::SynSent
    } else if word_is(token, "SYN_RECV") {
        ConntrackState::SynRecv
    } else if word_is(token, "FIN_WAIT1") {
        ConntrackState::FinWait1
    } else if word_is(token, "FIN_WAIT2") {
        ConntrackState::FinWait2
    } else if word_is(token, "TIME_WAIT") {
        ConntrackState::TimeWait
    } else if word_is(token, "CLOSE") {
        ConntrackState::Close
    } else if word_is(token, "CLOSE_WAIT") {
        ConntrackState::CloseWait
    } else if word_is(token, "LAST_ACK") {
        ConntrackState::LastAck
    } else if word_is(token, "LISTEN") {
        ConntrackState::Listen
    } else if word_is(token, "CLOSING") {
        ConntrackState::Closing
    } else {
        ConntrackState::Unknown
    }
}

/// The connection that the capture groups of an entry describe. It is one
/// only if the groups in use took part in the match, the three numeric fields
/// and the two ports are decimal numbers that fit, both addresses can be read
/// and they are of one family.
pub open spec fn record_of_captures(groups: Seq<Option<Seq<u8>>>) -> Result<
    Conntrack,
    NetworkError,
> {
    if !has_groups(groups, 10) {
        Err(NetworkError::ParserError)
    } else {
        let network_number = decimal_number(groups[2]->0, FIELD_MAX as nat);
        let transport_number = decimal_number(groups[4]->0, FIELD_MAX as nat);
        let timeout = decimal_number(groups[5]->0, FIELD_MAX as nat);
        let source = ip_from_text(groups[7]->0);
        let destination = ip_from_text(groups[8]->0);
        let source_port = decimal_number(groups[9]->0, PORT_MAX as nat);
        let destination_port = decimal_number(groups[10]->0, PORT_MAX as nat);
        if network_number is Some && transport_number is Some && timeout is Some && source is Some
            && destination is Some && source_port is Some && destination_port is Some
            && source->0.same_family(destination->0) {
            Ok(
                Conntrack {
                    network_protocol: network_protocol_of(groups[1]->0),
                    network_protocol_number: network_number->0 as i32,
                    protocol: family_of(groups[3]->0),
                    protocol_number: transport_number->0 as i32,
                    timeout: timeout->0 as i32,
                    src: SocketAddress { ip: source->0, port: source_port->0 as u16 },
                    dst: SocketAddress { ip: destination->0, port: destination_port->0 as u16 },
                    state: state_of(groups[6]->0),
                },
            )
        } else {
            Err(NetworkError::ParserError)
        }
    }
}

/// Reads a numeric field of an entry.
fn parse_field(bytes: &[u8]) -> (r: Option<i32>)
    ensures
        r matches Some(n) ==> n >= 0 && decimal_number(bytes@, FIELD_MAX as nat) == Some(
            n as nat,
        ),
        r is None ==> decimal_number(bytes@, FIELD_MAX as nat) is None,
{
    match parse_decimal(bytes, FIELD_MAX) {
        Some(n) => Some(n as i32),
        None => None,
    }
}

/// Reads a port of an entry.
fn parse_port(bytes: &[u8]) -> (r: Option<u16>)
    ensures
        r matches Some(n) ==> decimal_number(bytes@, PORT_MAX as nat) == Some(n as nat),
        r is None ==> decimal_number(bytes@, PORT_MAX as nat) is None,
{
    match parse_decimal(bytes, PORT_MAX) {
        Some(n) => Some(n as u16),
        None => None,
    }
}

/// Builds the connection that the capture groups of an entry describe.
pub fn conntrack_from_captures(groups: &Vec<Option<Vec<u8>>>) -> (r: Result<
    Conntrack,
    NetworkError,
>)
    ensures
        r == record_of_captures(groups_view(groups@)),
        r matches Ok(entry) ==> entry.wf(),
{
    let network_token = match group_at(groups, 1) {
        Some(bytes) => bytes,
        None => { return Err(NetworkError::ParserError); },
    };
    let network_digits = match group_at(groups, 2) {
        Some(bytes) => bytes,
        None => { return Err(NetworkError::ParserError); },
    };
    let transport_token = match group_at(groups, 3) {
        Some(bytes) => bytes,
        None => { return Err(NetworkError::ParserError); },
    };
    let transport_digits = match group_at(groups, 4) {
        Some(bytes) => bytes,
        None => { return Err(NetworkError::ParserError); },
    };
    let timeout_digits = match group_at(groups, 5) {
        Some(bytes) => bytes,
        None => { return Err(NetworkError::ParserError); },
    };
    let state_token = match group_at(groups, 6) {
        Some(bytes) => bytes,
        None => { return Err(NetworkError::ParserError); },
    };
    let source_text = match group_at(groups, 7) {
        Some(bytes) => bytes,
        None => { return Err(NetworkError::ParserError); },
    };
    let destination_text = match group_at(groups, 8) {
        Some(bytes) => bytes,
        None => { return Err(NetworkError::ParserError); },
    };
    let source_port_digits = match group_at(groups, 9) {
        Some(bytes) => bytes,
        None => { return Err(NetworkError::ParserError); },
    };
    let destination_port_digits = match group_at(groups, 10) {
        Some(bytes) => bytes,
        None => { return Err(NetworkError::ParserError); },
    };
    assert(has_groups(groups_view(groups@), 10));
    let network_protocol_number: i32 = match parse_field(network_digits) {
        Some(n) => n,
        None => { return Err(NetworkError::ParserError); },
    };
    let protocol_number: i32 = match parse_field(transport_digits) {
        Some(n) => n,
        None => { return Err(NetworkError::ParserError); },
    };
    let timeout: i32 = match parse_field(timeout_digits) {
        Some(n) => n,
        None => { return Err(NetworkError::ParserError); },
    };
    let source = match parse_ip(source_text) {
        Some(ip) => ip,
        None => { return Err(NetworkError::ParserError); },
    };
    let destination = match parse_ip(destination_text) {
        Some(ip) => ip,
        None => { return Err(NetworkError::ParserError); },
    };
    let source_port: u16 = match parse_port(source_port_digits) {
        Some(n) => n,
        None => { return Err(NetworkError::ParserError); },
    };
    let destination_port: u16 = match parse_port(destination_port_digits) {
        Some(n) => n,
        None => { return Err(NetworkError::ParserError); },
    };
    if !source.is_same_family(&destination) {
        return Err(NetworkError::ParserError);
    }
    Ok(
        Conntrack {
            network_protocol: decode_network_protocol(network_token),
            network_protocol_number,
            protocol: decode_family(transport_token),
            protocol_number,
            timeout,
            src: SocketAddress { ip: source, port: source_port },
            dst: SocketAddress { ip: destination, port: destination_port },
            state: decode_state(state_token),
        },
    )
}

/// The lines among `lines` that are not blank, in their order.
pub open spec fn entries_of(lines: Seq<Seq<u8>>) -> Seq<Seq<u8>> {
    lines.filter(|line: Seq<u8>| !is_blank(line))
}

/// The connection that one line of the table describes: what the capture
/// groups of the first match of the layout in it describe.
pub open spec fn line_record(line: Seq<u8>) -> Result<Conntrack, NetworkError> {
    match regex_captures(CONNTRACK_PATTERN@, line) {
        Some(groups) => record_of_captures(groups),
        None => Err(NetworkError::ParserError),
    }
}

/// The connections that a list of entries describes, in their order, if
/// every one of them describes a connection.
pub open spec fn records_of(entries: Seq<Seq<u8>>) -> Result<Seq<Conntrack>, NetworkError> {
    if forall|i: int| 0 <= i < entries.len() ==> line_record(#[trigger] entries[i]) is Ok {
        Ok(entries.map_values(|line: Seq<u8>| line_record(line)->Ok_0))
    } else {
        Err(NetworkError::ParserError)
    }
}

/// The connections that a table describes: one for each line that is not
/// blank, in the order of the lines.
pub open spec fn table_records(text: Seq<u8>) -> Result<Seq<Conntrack>, NetworkError> {
    records_of(entries_of(split(text, LINE_FEED)))
}

/// Whether `r` is `expected`, with the same connections in the same order.
pub open spec fn same_records(
    r: Result<Vec<Conntrack>, NetworkError>,
    expected: Result<Seq<Conntrack>, NetworkError>,
) -> bool {
    match r {
        Ok(records) => expected == Ok::<Seq<Conntrack>, NetworkError>(records@),
        Err(e) => expected == Err::<Seq<Conntrack>, NetworkError>(e),
    }
}

/// One more line at the end adds an entry exactly if it is not blank.
proof fn lemma_entries_push(lines: Seq<Seq<u8>>, line: Seq<u8>)
    ensures
        entries_of(lines.push(line)) == if is_blank(line) {
            entries_of(lines)
        } else {
            entries_of(lines).push(line)
        },
{
    reveal(Seq::filter);
    assert(lines.push(line).drop_last() =~= lines);
}

/// One more entry at the end adds its connection, or fails the list.
proof fn lemma_records_push(entries: Seq<Seq<u8>>, line: Seq<u8>)
    ensures
        records_of(entries.push(line)) == match (records_of(entries), line_record(line)) {
            (Ok(records), Ok(record)) => Ok::<Seq<Conntrack>, NetworkError>(records.push(record)),
            _ => Err::<Seq<Conntrack>, NetworkError>(NetworkError::ParserError),
        },
{
    let longer = entries.push(line);
    if records_of(entries) is Ok && line_record(line) is Ok {
        assert forall|i: int| 0 <= i < longer.len() implies line_record(
            #[trigger] longer[i],
        ) is Ok by {
            if i < entries.len() {
                assert(longer[i] == entries[i]);
            }
        }
        assert(longer.map_values(|line: Seq<u8>| line_record(line)->Ok_0)
            =~= entries.map_values(|line: Seq<u8>| line_record(line)->Ok_0).push(
            line_record(line)->Ok_0,
        ));
    } else if line_record(line) is Err {
        assert(longer[entries.len() as int] == line);
    } else {
        let i = choose|i: int| 0 <= i < entries.len() && !(line_record(
            #[trigger] entries[i],
        ) is Ok);
        assert(longer[i] == entries[i]);
    }
}

/// A table with a line that is not blank and describes no connection fails
/// as a whole, whatever its other lines hold.
pub proof fn lemma_failing_line(text: Seq<u8>, i: int)
    requires
        0 <= i < split(text, LINE_FEED).len(),
        !is_blank(split(text, LINE_FEED)[i]),
        line_record(split(text, LINE_FEED)[i]) is Err,
    ensures
        table_records(text) == Err::<Seq<Conntrack>, NetworkError>(NetworkError::ParserError),
{
    let lines = split(text, LINE_FEED);
    let keep = |line: Seq<u8>| !is_blank(line);
    lines.lemma_filter_contains(keep, i);
    let entries = entries_of(lines);
    assert(entries.contains(lines[i]));
    let j = choose|j: int| 0 <= j < entries.len() && entries[j] == lines[i];
    assert(!(line_record(entries[j]) is Ok));
}

/// A table that is read holds one connection for each line that is not
/// blank, in the order of the lines.
pub proof fn lemma_one_record_per_entry(text: Seq<u8>)
    requires
        table_records(text) is Ok,
    ensures
        ({
            let entries = entries_of(split(text, LINE_FEED));
            let records = table_records(text)->Ok_0;
            &&& records.len() == entries.len()
            &&& forall|i: int|
                0 <= i < entries.len() ==> line_record(#[trigger] entries[i]) == Ok::<
                    Conntrack,
                    NetworkError,
                >(records[i])
        }),
{
}

/// The state token never decides whether an entry describes a connection:
/// with any other token in its place the entry describes the same connection
/// in the state that this token names, which is `Unknown` where it names
/// none, or still describes no connection.
pub proof fn lemma_state_token_never_fails(groups: Seq<Option<Seq<u8>>>, token: Seq<u8>)
    requires
        has_groups(groups, 10),
    ensures
        ({
            let changed = groups.update(6, Some(token));
            match record_of_captures(groups) {
                Ok(entry) => record_of_captures(changed) == Ok::<Conntrack, NetworkError>(
                    Conntrack {
                        network_protocol: entry.network_protocol,
                        network_protocol_number: entry.network_protocol_number,
                        protocol: entry.protocol,
                        protocol_number: entry.protocol_number,
                        timeout: entry.timeout,
                        src: entry.src,
                        dst: entry.dst,
                        state: state_of(token),
                    },
                ),
                Err(e) => record_of_captures(changed) == Err::<Conntrack, NetworkError>(e),
            }
        }),
{
    let changed = groups.update(6, Some(token));
    assert(has_groups(changed, 10)) by {
        assert forall|i: int| 1 <= i <= 10 implies (#[trigger] changed[i]) is Some by {
            if i != 6 {
                assert(changed[i] == groups[i]);
            }
        }
    }
}

/// A connection that capture groups describe has two addresses of one family
/// and no negative number.
pub proof fn lemma_record_is_well_formed(groups: Seq<Option<Seq<u8>>>)
    requires
        record_of_captures(groups) is Ok,
    ensures
        ({
            let entry = record_of_captures(groups)->Ok_0;
            &&& entry.wf()
            &&& entry.network_protocol_number >= 0
            &&& entry.protocol_number >= 0
            &&& entry.timeout >= 0
        }),
{
}

/// A reader of connection-tracking tables: the layout of an entry, compiled
/// once and used for every line of every table.
pub struct TableParser {
    layout: Regex,
}

impl TableParser {
    #[verifier::type_invariant]
    spec fn compiled_from_layout(self) -> bool {
        regex_source(self.layout) == CONNTRACK_PATTERN@
    }

    /// Compiles the layout of an entry. This fails only where the pattern
    /// is refused.
    pub fn new() -> (r: Result<TableParser, NetworkError>)
        ensures
            r is Ok == regex_compiles(CONNTRACK_PATTERN@),
    {
        match Regex::new(CONNTRACK_PATTERN) {
            Ok(layout) => Ok(TableParser { layout }),
            Err(_) => Err(NetworkError::ParserError),
        }
    }

    /// Reads the connection that one line describes.
    pub fn parse_line(&self, line: &[u8]) -> (r: Result<Conntrack, NetworkError>)
        ensures
            r == line_record(line@),
            r matches Ok(entry) ==> entry.wf(),
    {
        proof {
            use_type_invariant(self);
        }
        match captures(&self.layout, line) {
            Some(groups) => conntrack_from_captures(&groups),
            None => Err(NetworkError::ParserError),
        }
    }

    /// Reads a whole table: the connections of its lines in their order, or
    /// an error if one line that is not blank describes none.
    pub fn parse_table(&self, text: &[u8]) -> (r: Result<Vec<Conntrack>, NetworkError>)
        ensures
            same_records(r, table_records(text@)),
            r matches Ok(records) ==> forall|i: int|
                0 <= i < records.len() ==> (#[trigger] records[i]).wf(),
    {
        let lines = split_fields(text, LINE_FEED);
        let ghost all = split(text@, LINE_FEED);
        let mut records: Vec<Conntrack> = Vec::new();
        let mut i: usize = 0;
        proof {
            reveal(Seq::filter);
            assert(all.take(0) =~= Seq::<Seq<u8>>::empty());
            assert(entries_of(all.take(0)) =~= Seq::<Seq<u8>>::empty());
            assert(records_of(entries_of(all.take(0))) matches Ok(none) && none =~= records@);
        }
        while i < lines.len()
            invariant
                i <= lines.len(),
                all == split(text@, LINE_FEED),
                views(lines@) == all,
                records_of(entries_of(all.take(i as int))) == Ok::<Seq<Conntrack>, NetworkError>(
                    records@,
                ),
                forall|j: int| 0 <= j < records.len() ==> (#[trigger] records[j]).wf(),
            decreases lines.len() - i,
        {
            let line = lines[i];
            assert(all[i as int] == line@);
            proof {
                assert(all.take(i + 1) =~= all.take(i as int).push(line@));
                lemma_entries_push(all.take(i as int), line@);
                lemma_records_push(entries_of(all.take(i as int)), line@);
            }
            if !blank(line) {
                match self.parse_line(line) {
                    Ok(record) => {
                        records.push(record);
                    },
                    Err(e) => {
                        proof {
                            lemma_failing_line(text@, i as int);
                        }
                        return Err(e);
                    },
                }
            }
            i += 1;
        }
        assert(all.take(i as int) =~= all);
        Ok(records)
    }
}

/// What `parse_table` makes of a table: its connections, or an error where
/// a line describes none or the layout could not be compiled.
pub open spec fn parse_table_result(text: Seq<u8>) -> Result<Seq<Conntrack>, NetworkError> {
    if regex_compiles(CONNTRACK_PATTERN@) {
        table_records(text)
    } else {
        Err(NetworkError::ParserError)
    }
}

/// Reads a connection-tracking table.
pub fn parse_table(text: &[u8]) -> (r: Result<Vec<Conntrack>, NetworkError>)
    ensures
        same_records(r, parse_table_result(text@)),
        r matches Ok(records) ==> forall|i: int|
            0 <= i < records.len() ==> (#[trigger] records[i]).wf(),
{
    match TableParser::new() {
        Ok(parser) => parser.parse_table(text),
        Err(e) => Err(e),
    }
}

/// Reading a table twice gives the same answer: the same connections in the
/// same order, or the same error.
pub proof fn lemma_parse_table_repeats(
    text: Seq<u8>,
    first: Result<Vec<Conntrack>, NetworkError>,
    second: Result<Vec<Conntrack>, NetworkError>,
)
    requires
        same_records(first, parse_table_result(text)),
        same_records(second, parse_table_result(text)),
    ensures
        first matches Ok(a) ==> second matches Ok(b) && a@ == b@,
        first matches Err(e) ==> second == Err::<Vec<Conntrack>, NetworkError>(e),
{
}

/// A table without a line that is not blank holds no connection, and that is
/// no failure.
pub proof fn lemma_empty_table()
    ensures
        table_records(Seq::<u8>::empty()) == Ok::<Seq<Conntrack>, NetworkError>(
            Seq::<Conntrack>::empty(),
        ),
{
    let lines = split(Seq::<u8>::empty(), LINE_FEED);
    let none = Seq::<Seq<u8>>::empty();
    assert(lines =~= none.push(Seq::<u8>::empty()));
    assert(is_blank(Seq::<u8>::empty()));
    lemma_entries_push(none, Seq::<u8>::empty());
    assert(entries_of(none) =~= none) by {
        reveal(Seq::filter);
    }
    assert(records_of(none)->Ok_0 =~= Seq::<Conntrack>::empty());
}

} // verus!
