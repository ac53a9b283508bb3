//! Message classifier: sorts one protocol line into at most one of the
//! classes the session reacts to.
//!
//! The recognized shapes follow the wire conventions: a `PING :<n>` probe,
//! the numeric welcome-end replies `376` (end of MOTD) and `422` (no MOTD),
//! a channel-join confirmation, the two DCC lines, and the bot's free-text
//! flow-control notices. A line matching none of them is unclassified and
//! ignored.

use vstd::prelude::*;
use crate::bytes::{contains_seq, find_pat, is_digit, match_at, match_at_exec};
use crate::descriptor::{
    has_dcc_accept, has_dcc_send, is_dcc_accept, is_dcc_send, scan_exec, scan_from, ScanKind,
};

verus! {

/// The byte sequence `PING :`.
pub open spec fn ping_marker() -> Seq<u8> {
    seq![0x50u8, 0x49, 0x4e, 0x47, 0x20, 0x3a]
}

/// The byte sequence `JOIN :#` that confirms a channel join.
pub open spec fn join_marker() -> Seq<u8> {
    seq![0x4au8, 0x4f, 0x49, 0x4e, 0x20, 0x3a, 0x23]
}

/// The digits `376` (end of MOTD).
pub open spec fn motd_end_code() -> Seq<u8> {
    seq![0x33u8, 0x37, 0x36]
}

/// The digits `422` (no MOTD).
pub open spec fn no_motd_code() -> Seq<u8> {
    seq![0x34u8, 0x32, 0x32]
}

/// The text `already requested`, sent when a duplicate request races.
pub open spec fn already_requested_text() -> Seq<u8> {
    seq![
        0x61u8, 0x6c, 0x72, 0x65, 0x61, 0x64, 0x79, 0x20, 0x72, 0x65, 0x71, 0x75, 0x65, 0x73,
        0x74, 0x65, 0x64,
    ]
}

/// The text `queued too many`, sent when the bot's queue is full.
pub open spec fn queue_full_text() -> Seq<u8> {
    seq![
        0x71u8, 0x75, 0x65, 0x75, 0x65, 0x64, 0x20, 0x74, 0x6f, 0x6f, 0x20, 0x6d, 0x61, 0x6e,
        0x79,
    ]
}

fn ping_marker_exec() -> (r: Vec<u8>)
    ensures
        r@ == ping_marker(),
        r@.len() == 6,
{
    let mut r: Vec<u8> = Vec::new();
    r.push(0x50);
    r.push(0x49);
    r.push(0x4e);
    r.push(0x47);
    r.push(0x20);
    r.push(0x3a);
    assert(r@ =~= ping_marker());
    r
}

fn join_marker_exec() -> (r: Vec<u8>)
    ensures
        r@ == join_marker(),
{
    let mut r: Vec<u8> = Vec::new();
    r.push(0x4a);
    r.push(0x4f);
    r.push(0x49);
    r.push(0x4e);
    r.push(0x20);
    r.push(0x3a);
    r.push(0x23);
    assert(r@ =~= join_marker());
    r
}

fn motd_end_code_exec() -> (r: Vec<u8>)
    ensures
        r@ == motd_end_code(),
{
    let mut r: Vec<u8> = Vec::new();
    r.push(0x33);
    r.push(0x37);
    r.push(0x36);
    assert(r@ =~= motd_end_code());
    r
}

fn no_motd_code_exec() -> (r: Vec<u8>)
    ensures
        r@ == no_motd_code(),
{
    let mut r: Vec<u8> = Vec::new();
    r.push(0x34);
    r.push(0x32);
    r.push(0x32);
    assert(r@ =~= no_motd_code());
    r
}

fn already_requested_exec() -> (r: Vec<u8>)
    ensures
        r@ == already_requested_text(),
{
    let mut r: Vec<u8> = Vec::new();
    r.push(0x61);
    r.push(0x6c);
    r.push(0x72);
    r.push(0x65);
    r.push(0x61);
    r.push(0x64);
    r.push(0x79);
    r.push(0x20);
    r.push(0x72);
    r.push(0x65);
    r.push(0x71);
    r.push(0x75);
    r.push(0x65);
    r.push(0x73);
    r.push(0x74);
    r.push(0x65);
    r.push(0x64);
    assert(r@ =~= already_requested_text());
    r
}

fn queue_full_exec() -> (r: Vec<u8>)
    ensures
        r@ == queue_full_text(),
{
    let mut r: Vec<u8> = Vec::new();
    r.push(0x71);
    r.push(0x75);
    r.push(0x65);
    r.push(0x75);
    r.push(0x65);
    r.push(0x64);
    r.push(0x20);
    r.push(0x74);
    r.push(0x6f);
    r.push(0x6f);
    r.push(0x20);
    r.push(0x6d);
    r.push(0x61);
    r.push(0x6e);
    r.push(0x79);
    assert(r@ =~= queue_full_text());
    r
}

/// `PING :` followed by at least one digit occurs at index `i`.
pub open spec fn ping_at(s: Seq<u8>, i: int) -> bool {
    match_at(s, i, ping_marker()) && i + 6 < s.len() && is_digit(s[i + 6])
}

/// The line is a server Ping probe.
pub open spec fn is_ping(s: Seq<u8>) -> bool {
    exists|i: int| ping_at(s, i)
}

/// A welcome-end reply occurs at index `i`: a colon, the sender (one or
/// more non-whitespace bytes), a space, the code `376` or `422`, a space.
pub open spec fn welcome_end_at(s: Seq<u8>, i: int) -> bool {
    &&& 0 <= i < s.len()
    &&& s[i] == 0x3a
    &&& ({
        let j = scan_from(s, i + 1, ScanKind::Ws);
        &&& i + 1 < j
        &&& j + 4 < s.len()
        &&& s[j] == 0x20
        &&& (s.subrange(j + 1, j + 4) == motd_end_code() || s.subrange(j + 1, j + 4)
            == no_motd_code())
        &&& s[j + 4] == 0x20
    })
}

/// The line marks the end of the server's welcome sequence.
pub open spec fn is_welcome_end(s: Seq<u8>) -> bool {
    exists|i: int| welcome_end_at(s, i)
}

/// The line confirms a channel join.
pub open spec fn is_join_confirm(s: Seq<u8>) -> bool {
    contains_seq(s, join_marker())
}

/// The line is a duplicate-request notice.
pub open spec fn is_already_requested(s: Seq<u8>) -> bool {
    contains_seq(s, already_requested_text())
}

/// The line is a queue-full notice.
pub open spec fn is_queue_full(s: Seq<u8>) -> bool {
    contains_seq(s, queue_full_text())
}

/// The classes a protocol line can fall into, in recognition priority
/// order; a line showing several shapes counts as the first match.
#[derive(Clone, Copy, PartialEq, Eq, Structural, Debug)]
pub enum MessageClass {
    Ping,
    WelcomeEnd,
    JoinConfirmed,
    DccSend,
    DccAccept,
    AlreadyRequested,
    QueueFull,
    Unclassified,
}

/// The class of a line.
pub open spec fn classify_spec(s: Seq<u8>) -> MessageClass {
    if is_ping(s) {
        MessageClass::Ping
    } else if is_welcome_end(s) {
        MessageClass::WelcomeEnd
    } else if is_join_confirm(s) {
        MessageClass::JoinConfirmed
    } else if is_dcc_send(s) {
        MessageClass::DccSend
    } else if is_dcc_accept(s) {
        MessageClass::DccAccept
    } else if is_already_requested(s) {
        MessageClass::AlreadyRequested
    } else if is_queue_full(s) {
        MessageClass::QueueFull
    } else {
        MessageClass::Unclassified
    }
}

/// Whether the line is a Ping probe.
pub fn is_ping_exec(s: &Vec<u8>) -> (r: bool)
    ensures
        r == is_ping(s@),
{
    let marker = ping_marker_exec();
    let mut i: usize = 0;
    while i < s.len()
        invariant
            0 <= i <= s@.len(),
            marker@ == ping_marker(),
            forall|j: int| 0 <= j < i ==> !ping_at(s@, j),
        decreases s@.len() - i,
    {
        if match_at_exec(s, i, &marker) {
            if s.len() - i > 6 {
                let b = s[i + 6];
                if 0x30 <= b && b <= 0x39 {
                    assert(ping_at(s@, i as int));
                    return true;
                }
            }
        }
        i += 1;
    }
    proof {
        if is_ping(s@) {
            let w = choose|j: int| ping_at(s@, j);
            assert(0 <= w < s@.len());
        }
    }
    false
}

/// Whether the line marks the end of the welcome sequence.
pub fn is_welcome_end_exec(s: &Vec<u8>) -> (r: bool)
    ensures
        r == is_welcome_end(s@),
{
    let m376 = motd_end_code_exec();
    let m422 = no_motd_code_exec();
    let mut i: usize = 0;
    while i < s.len()
        invariant
            0 <= i <= s@.len(),
            m376@ == motd_end_code(),
            m422@ == no_motd_code(),
            forall|j: int| 0 <= j < i ==> !welcome_end_at(s@, j),
        decreases s@.len() - i,
    {
        if s[i] == 0x3a {
            let j = scan_exec(s, i + 1, ScanKind::Ws);
            if i + 1 < j && j < s.len() && s.len() - j > 4 && s[j] == 0x20 && s[j + 4] == 0x20 {
                let hit376 = match_at_exec(s, j + 1, &m376);
                let hit422 = match_at_exec(s, j + 1, &m422);
                if hit376 || hit422 {
                    assert(welcome_end_at(s@, i as int)) by {
                        assert(s@.subrange(j + 1, j + 4) == s@.subrange(
                            j + 1,
                            j + 1 + motd_end_code().len(),
                        ));
                    }
                    return true;
                }
            }
        }
        i += 1;
    }
    proof {
        if is_welcome_end(s@) {
            let w = choose|j: int| welcome_end_at(s@, j);
            assert(0 <= w < s@.len());
        }
    }
    false
}

/// Classify one line.
pub fn classify(line: &Vec<u8>) -> (r: MessageClass)
    ensures
        r == classify_spec(line@),
{
    if is_ping_exec(line) {
        return MessageClass::Ping;
    }
    if is_welcome_end_exec(line) {
        return MessageClass::WelcomeEnd;
    }
    let join = join_marker_exec();
    match find_pat(line, &join) {
        Some(_) => {
            return MessageClass::JoinConfirmed;
        }
        None => {}
    }
    if has_dcc_send(line) {
        return MessageClass::DccSend;
    }
    if has_dcc_accept(line) {
        return MessageClass::DccAccept;
    }
    let already = already_requested_exec();
    match find_pat(line, &already) {
        Some(_) => {
            return MessageClass::AlreadyRequested;
        }
        None => {}
    }
    let queued = queue_full_exec();
    match find_pat(line, &queued) {
        Some(_) => {
            return MessageClass::QueueFull;
        }
        None => {}
    }
    MessageClass::Unclassified
}

} // verus!
