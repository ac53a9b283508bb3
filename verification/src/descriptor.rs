//! Transfer descriptors and the grammar of the DCC lines that create them.
//!
//! A `DCC SEND` line offers a file: it carries a filename (quoted when it
//! holds spaces, bare otherwise), the peer address as a 32-bit unsigned
//! decimal number in network byte order, the peer port, and the total file
//! size. A `DCC ACCEPT` line answers a resume request and carries a
//! filename, the data port and the accepted offset. Both may appear
//! anywhere inside a protocol line; the first structurally valid occurrence
//! counts. Malformed operands make the line fall outside the grammar and
//! the line is then ignored by the session (a recoverable parse failure).

use vstd::prelude::*;
use crate::bytes::{
    all_digits, dec_rep, dec_val, is_digit, match_at, match_at_exec, parse_u64_range, sub_vec,
    append_vec, render_u64,
};

verus! {

/// One file transfer negotiated over DCC: where to connect, what to fetch,
/// and from which byte offset to continue.
pub struct TransferDescriptor {
    /// Target file name, quoting stripped.
    pub filename: Vec<u8>,
    /// Peer IPv4 address as a 32-bit unsigned value in network byte order.
    pub ip: u32,
    /// Peer data port, kept as the decimal digits from the wire.
    pub port: Vec<u8>,
    /// Total size of the file in bytes.
    pub file_size: u64,
    /// Offset the transfer starts from; zero for a fresh download.
    pub resume_position: u64,
}

/// Whitespace as the line grammar sees it.
pub open spec fn is_ws(b: u8) -> bool {
    b == 0x20 || b == 0x09 || b == 0x0a || b == 0x0b || b == 0x0c || b == 0x0d
}

/// What a scan looks for: the first whitespace byte, the first double
/// quote, the first byte that is not a decimal digit, or the first comma.
#[derive(Clone, Copy)]
pub enum ScanKind {
    Ws,
    Quote,
    NonDigit,
    Comma,
}

pub open spec fn scan_hit(kind: ScanKind, b: u8) -> bool {
    match kind {
        ScanKind::Ws => is_ws(b),
        ScanKind::Quote => b == 0x22,
        ScanKind::NonDigit => !is_digit(b),
        ScanKind::Comma => b == 0x2c,
    }
}

/// Index of the first byte at or after `k` that `kind` looks for, or
/// `s.len()` when there is none.
pub open spec fn scan_from(s: Seq<u8>, k: int, kind: ScanKind) -> int
    decreases s.len() - k,
{
    if k < 0 || k >= s.len() {
        s.len() as int
    } else if scan_hit(kind, s[k]) {
        k
    } else {
        scan_from(s, k + 1, kind)
    }
}

pub proof fn lemma_scan_from(s: Seq<u8>, k: int, kind: ScanKind)
    requires
        0 <= k <= s.len(),
    ensures
        ({
            let r = scan_from(s, k, kind);
            &&& k <= r <= s.len()
            &&& r < s.len() ==> scan_hit(kind, s[r])
            &&& forall|j: int| k <= j < r ==> !scan_hit(kind, s[j])
        }),
    decreases s.len() - k,
{
    if k < s.len() && !scan_hit(kind, s[k]) {
        lemma_scan_from(s, k + 1, kind);
    }
}

/// Whether the scan target occurs at or after `k`, and where.
pub fn scan_exec(s: &Vec<u8>, k: usize, kind: ScanKind) -> (r: usize)
    requires
        k <= s@.len(),
    ensures
        r == scan_from(s@, k as int, kind),
        k <= r <= s@.len(),
{
    let mut i: usize = k;
    while i < s.len()
        invariant
            k <= i <= s@.len(),
            scan_from(s@, k as int, kind) == scan_from(s@, i as int, kind),
        decreases s@.len() - i,
    {
        let b = s[i];
        let hit = match kind {
            ScanKind::Ws => b == 0x20 || b == 0x09 || b == 0x0a || b == 0x0b || b == 0x0c
                || b == 0x0d,
            ScanKind::Quote => b == 0x22,
            ScanKind::NonDigit => b < 0x30 || b > 0x39,
            ScanKind::Comma => b == 0x2c,
        };
        if hit {
            return i;
        }
        i += 1;
    }
    i
}

/// The byte sequence `DCC SEND ` that opens a send offer.
pub open spec fn send_marker() -> Seq<u8> {
    seq![0x44u8, 0x43, 0x43, 0x20, 0x53, 0x45, 0x4e, 0x44, 0x20]
}

/// The byte sequence `DCC ACCEPT ` that opens a resume acceptance.
pub open spec fn accept_marker() -> Seq<u8> {
    seq![0x44u8, 0x43, 0x43, 0x20, 0x41, 0x43, 0x43, 0x45, 0x50, 0x54, 0x20]
}

fn send_marker_exec() -> (r: Vec<u8>)
    ensures
        r@ == send_marker(),
        r@.len() == 9,
{
    let mut r: Vec<u8> = Vec::new();
    r.push(0x44);
    r.push(0x43);
    r.push(0x43);
    r.push(0x20);
    r.push(0x53);
    r.push(0x45);
    r.push(0x4e);
    r.push(0x44);
    r.push(0x20);
    assert(r@ =~= send_marker());
    r
}

fn accept_marker_exec() -> (r: Vec<u8>)
    ensures
        r@ == accept_marker(),
        r@.len() == 11,
{
    let mut r: Vec<u8> = Vec::new();
    r.push(0x44);
    r.push(0x43);
    r.push(0x43);
    r.push(0x20);
    r.push(0x41);
    r.push(0x43);
    r.push(0x43);
    r.push(0x45);
    r.push(0x50);
    r.push(0x54);
    r.push(0x20);
    assert(r@ =~= accept_marker());
    r
}

/// A quoted filename starting at `m`: a double quote, one or more bytes
/// other than a double quote, and a closing double quote. Yields the name
/// and the index just after the closing quote.
pub open spec fn quoted_name_at(s: Seq<u8>, m: int) -> Option<(Seq<u8>, int)> {
    if 0 <= m < s.len() && s[m] == 0x22 {
        let cq = scan_from(s, m + 1, ScanKind::Quote);
        if m + 1 < cq < s.len() {
            Some((s.subrange(m + 1, cq), cq + 1))
        } else {
            None
        }
    } else {
        None
    }
}

/// A bare filename starting at `m`: one or more non-whitespace bytes ended
/// by a space. Yields the name and the index of that space.
pub open spec fn bare_name_at(s: Seq<u8>, m: int) -> Option<(Seq<u8>, int)> {
    if 0 <= m < s.len() {
        let e = scan_from(s, m, ScanKind::Ws);
        if m < e < s.len() && s[e] == 0x20 {
            Some((s.subrange(m, e), e))
        } else {
            None
        }
    } else {
        None
    }
}

/// A maximal run of one or more decimal digits starting at `p`. Yields the
/// digits and the index just after them.
pub open spec fn digit_run_at(s: Seq<u8>, p: int) -> Option<(Seq<u8>, int)> {
    if 0 <= p < s.len() {
        let e = scan_from(s, p, ScanKind::NonDigit);
        if p < e {
            Some((s.subrange(p, e), e))
        } else {
            None
        }
    } else {
        None
    }
}

/// The three numeric operands of a send offer, each preceded by one space:
/// address, port and total size. `pos` is where the first space must stand.
pub open spec fn send_nums_at(s: Seq<u8>, pos: int) -> Option<(Seq<u8>, Seq<u8>, Seq<u8>)> {
    if 0 <= pos < s.len() && s[pos] == 0x20 {
        match digit_run_at(s, pos + 1) {
            Some((d1, e1)) => if e1 < s.len() && s[e1] == 0x20 {
                match digit_run_at(s, e1 + 1) {
                    Some((d2, e2)) => if e2 < s.len() && s[e2] == 0x20 {
                        match digit_run_at(s, e2 + 1) {
                            Some((d3, _)) => Some((d1, d2, d3)),
                            None => None,
                        }
                    } else {
                        None
                    },
                    None => None,
                }
            } else {
                None
            },
            None => None,
        }
    } else {
        None
    }
}

/// The two numeric operands of a resume acceptance: port and offset.
pub open spec fn accept_nums_at(s: Seq<u8>, pos: int) -> Option<(Seq<u8>, Seq<u8>)> {
    if 0 <= pos < s.len() && s[pos] == 0x20 {
        match digit_run_at(s, pos + 1) {
            Some((d1, e1)) => if e1 < s.len() && s[e1] == 0x20 {
                match digit_run_at(s, e1 + 1) {
                    Some((d2, _)) => Some((d1, d2)),
                    None => None,
                }
            } else {
                None
            },
            None => None,
        }
    } else {
        None
    }
}

/// The full operand list of a send offer starting at `m` (just after the
/// marker): a quoted or bare filename, then address, port and size. A
/// quoted reading is preferred; when it fails the bare one is tried.
pub open spec fn send_operands_at(s: Seq<u8>, m: int) -> Option<
    (Seq<u8>, Seq<u8>, Seq<u8>, Seq<u8>),
> {
    let quoted = match quoted_name_at(s, m) {
        Some((name, after)) => match send_nums_at(s, after) {
            Some((d1, d2, d3)) => Some((name, d1, d2, d3)),
            None => None,
        },
        None => None,
    };
    if quoted is Some {
        quoted
    } else {
        match bare_name_at(s, m) {
            Some((name, after)) => match send_nums_at(s, after) {
                Some((d1, d2, d3)) => Some((name, d1, d2, d3)),
                None => None,
            },
            None => None,
        }
    }
}

/// The full operand list of a resume acceptance starting at `m`: a quoted
/// or bare filename, then port and offset.
pub open spec fn accept_operands_at(s: Seq<u8>, m: int) -> Option<(Seq<u8>, Seq<u8>, Seq<u8>)> {
    let quoted = match quoted_name_at(s, m) {
        Some((name, after)) => match accept_nums_at(s, after) {
            Some((d1, d2)) => Some((name, d1, d2)),
            None => None,
        },
        None => None,
    };
    if quoted is Some {
        quoted
    } else {
        match bare_name_at(s, m) {
            Some((name, after)) => match accept_nums_at(s, after) {
                Some((d1, d2)) => Some((name, d1, d2)),
                None => None,
            },
            None => None,
        }
    }
}

/// A complete send offer occurs at index `i`.
pub open spec fn send_match_at(s: Seq<u8>, i: int) -> bool {
    match_at(s, i, send_marker()) && send_operands_at(s, i + 9) is Some
}

/// A complete resume acceptance occurs at index `i`.
pub open spec fn accept_match_at(s: Seq<u8>, i: int) -> bool {
    match_at(s, i, accept_marker()) && accept_operands_at(s, i + 11) is Some
}

/// The line holds a complete send offer.
pub open spec fn is_dcc_send(s: Seq<u8>) -> bool {
    exists|i: int| send_match_at(s, i)
}

/// The line holds a complete resume acceptance.
pub open spec fn is_dcc_accept(s: Seq<u8>) -> bool {
    exists|i: int| accept_match_at(s, i)
}

/// Index of the first send offer at or after `k`, or `s.len()`.
pub open spec fn first_send_from(s: Seq<u8>, k: int) -> int
    decreases s.len() - k,
{
    if k < 0 || k >= s.len() {
        s.len() as int
    } else if send_match_at(s, k) {
        k
    } else {
        first_send_from(s, k + 1)
    }
}

/// Index of the first resume acceptance at or after `k`, or `s.len()`.
pub open spec fn first_accept_from(s: Seq<u8>, k: int) -> int
    decreases s.len() - k,
{
    if k < 0 || k >= s.len() {
        s.len() as int
    } else if accept_match_at(s, k) {
        k
    } else {
        first_accept_from(s, k + 1)
    }
}

pub proof fn lemma_first_send(s: Seq<u8>, k: int)
    requires
        0 <= k <= s.len(),
    ensures
        ({
            let r = first_send_from(s, k);
            &&& k <= r <= s.len()
            &&& r < s.len() ==> send_match_at(s, r)
            &&& forall|j: int| k <= j < r ==> !send_match_at(s, j)
            &&& forall|j: int| k <= j && send_match_at(s, j) ==> r <= j
        }),
    decreases s.len() - k,
{
    if k < s.len() && !send_match_at(s, k) {
        lemma_first_send(s, k + 1);
    }
}

pub proof fn lemma_first_accept(s: Seq<u8>, k: int)
    requires
        0 <= k <= s.len(),
    ensures
        ({
            let r = first_accept_from(s, k);
            &&& k <= r <= s.len()
            &&& r < s.len() ==> accept_match_at(s, r)
            &&& forall|j: int| k <= j < r ==> !accept_match_at(s, j)
            &&& forall|j: int| k <= j && accept_match_at(s, j) ==> r <= j
        }),
    decreases s.len() - k,
{
    if k < s.len() && !accept_match_at(s, k) {
        lemma_first_accept(s, k + 1);
    }
}

/// The operands of the first send offer of the line, if any.
pub open spec fn spec_parse_dcc_send(s: Seq<u8>) -> Option<(Seq<u8>, Seq<u8>, Seq<u8>, Seq<u8>)> {
    if is_dcc_send(s) {
        send_operands_at(s, first_send_from(s, 0) + 9)
    } else {
        None
    }
}

/// The operands of the first resume acceptance of the line, if any.
pub open spec fn spec_parse_dcc_accept(s: Seq<u8>) -> Option<(Seq<u8>, Seq<u8>, Seq<u8>)> {
    if is_dcc_accept(s) {
        accept_operands_at(s, first_accept_from(s, 0) + 11)
    } else {
        None
    }
}

/// A line holds a send offer exactly when its first offer parses.
pub proof fn lemma_send_parse_total(s: Seq<u8>)
    ensures
        is_dcc_send(s) <==> spec_parse_dcc_send(s) is Some,
{
    if is_dcc_send(s) {
        lemma_first_send(s, 0);
        let w = choose|j: int| send_match_at(s, j);
        assert(0 <= w < s.len());
        assert(send_match_at(s, first_send_from(s, 0)));
    }
}

/// A line holds a resume acceptance exactly when its first one parses.
pub proof fn lemma_accept_parse_total(s: Seq<u8>)
    ensures
        is_dcc_accept(s) <==> spec_parse_dcc_accept(s) is Some,
{
    if is_dcc_accept(s) {
        lemma_first_accept(s, 0);
        let w = choose|j: int| accept_match_at(s, j);
        assert(0 <= w < s.len());
        assert(accept_match_at(s, first_accept_from(s, 0)));
    }
}

/// The numeric reading of a line's first send offer: filename, address
/// value, port digits and size value, defined when the offer parses and
/// its numbers fit the machine types.
pub open spec fn descriptor_of_line(s: Seq<u8>) -> Option<(Seq<u8>, int, Seq<u8>, int)> {
    match spec_parse_dcc_send(s) {
        Some(ops) => if dec_val(ops.1) <= u32::MAX && dec_val(ops.3) <= u64::MAX {
            Some((ops.0, dec_val(ops.1), ops.2, dec_val(ops.3)))
        } else {
            None
        },
        None => None,
    }
}

/// Send-offer operands at `m`, with copies of the matched ranges.
fn send_operands_exec(s: &Vec<u8>, m: usize) -> (r: Option<(Vec<u8>, Vec<u8>, Vec<u8>, Vec<u8>)>)
    requires
        m <= s@.len(),
    ensures
        match r {
            Some(q) => send_operands_at(s@, m as int) matches Some(ops) && q.0@ == ops.0
                && q.1@ == ops.1 && q.2@ == ops.2 && q.3@ == ops.3
                && all_digits(q.1@) && q.1@.len() > 0
                && all_digits(q.2@) && q.2@.len() > 0
                && all_digits(q.3@) && q.3@.len() > 0,
            None => send_operands_at(s@, m as int) is None,
        },
{
    // quoted reading first
    if m < s.len() && s[m] == 0x22 {
        let cq = scan_exec(s, m + 1, ScanKind::Quote);
        if m + 1 < cq && cq < s.len() {
            match send_nums_exec(s, cq + 1) {
                Some((d1, d2, d3)) => {
                    let name = sub_vec(s, m + 1, cq);
                    return Some((name, d1, d2, d3));
                }
                None => {}
            }
        }
    }
    // bare reading
    if m < s.len() {
        let e = scan_exec(s, m, ScanKind::Ws);
        proof {
            lemma_scan_from(s@, m as int, ScanKind::Ws);
        }
        if m < e && e < s.len() && s[e] == 0x20 {
            match send_nums_exec(s, e) {
                Some((d1, d2, d3)) => {
                    let name = sub_vec(s, m, e);
                    return Some((name, d1, d2, d3));
                }
                None => {}
            }
        }
    }
    None
}

/// Resume-acceptance operands at `m`, with copies of the matched ranges.
fn accept_operands_exec(s: &Vec<u8>, m: usize) -> (r: Option<(Vec<u8>, Vec<u8>, Vec<u8>)>)
    requires
        m <= s@.len(),
    ensures
        match r {
            Some(q) => accept_operands_at(s@, m as int) matches Some(ops) && q.0@ == ops.0
                && q.1@ == ops.1 && q.2@ == ops.2
                && all_digits(q.1@) && q.1@.len() > 0
                && all_digits(q.2@) && q.2@.len() > 0,
            None => accept_operands_at(s@, m as int) is None,
        },
{
    if m < s.len() && s[m] == 0x22 {
        let cq = scan_exec(s, m + 1, ScanKind::Quote);
        if m + 1 < cq && cq < s.len() {
            match accept_nums_exec(s, cq + 1) {
                Some((d1, d2)) => {
                    let name = sub_vec(s, m + 1, cq);
                    return Some((name, d1, d2));
                }
                None => {}
            }
        }
    }
    if m < s.len() {
        let e = scan_exec(s, m, ScanKind::Ws);
        proof {
            lemma_scan_from(s@, m as int, ScanKind::Ws);
        }
        if m < e && e < s.len() && s[e] == 0x20 {
            match accept_nums_exec(s, e) {
                Some((d1, d2)) => {
                    let name = sub_vec(s, m, e);
                    return Some((name, d1, d2));
                }
                None => {}
            }
        }
    }
    None
}

/// One digit run starting at `p`, as a copy, with where it ended.
fn digit_run_exec(s: &Vec<u8>, p: usize) -> (r: Option<(Vec<u8>, usize)>)
    requires
        p <= s@.len(),
    ensures
        match r {
            Some((d, e)) => digit_run_at(s@, p as int) matches Some(ops) && d@ == ops.0
                && e as int == ops.1 && p < e <= s@.len() && all_digits(d@) && d@.len() > 0,
            None => digit_run_at(s@, p as int) is None,
        },
{
    if p >= s.len() {
        return None;
    }
    let e = scan_exec(s, p, ScanKind::NonDigit);
    proof {
        lemma_scan_from(s@, p as int, ScanKind::NonDigit);
    }
    if p < e {
        let d = sub_vec(s, p, e);
        Some((d, e))
    } else {
        None
    }
}

/// The three space-led numeric operands of a send offer.
fn send_nums_exec(s: &Vec<u8>, pos: usize) -> (r: Option<(Vec<u8>, Vec<u8>, Vec<u8>)>)
    requires
        pos <= s@.len(),
    ensures
        match r {
            Some(q) => send_nums_at(s@, pos as int) matches Some(ops) && q.0@ == ops.0
                && q.1@ == ops.1 && q.2@ == ops.2
                && all_digits(q.0@) && q.0@.len() > 0
                && all_digits(q.1@) && q.1@.len() > 0
                && all_digits(q.2@) && q.2@.len() > 0,
            None => send_nums_at(s@, pos as int) is None,
        },
{
    if !(pos < s.len() && s[pos] == 0x20) {
        return None;
    }
    let (d1, e1) = match digit_run_exec(s, pos + 1) {
        Some(x) => x,
        None => {
            return None;
        }
    };
    if !(e1 < s.len() && s[e1] == 0x20) {
        return None;
    }
    let (d2, e2) = match digit_run_exec(s, e1 + 1) {
        Some(x) => x,
        None => {
            return None;
        }
    };
    if !(e2 < s.len() && s[e2] == 0x20) {
        return None;
    }
    let (d3, _e3) = match digit_run_exec(s, e2 + 1) {
        Some(x) => x,
        None => {
            return None;
        }
    };
    Some((d1, d2, d3))
}

/// The two space-led numeric operands of a resume acceptance.
fn accept_nums_exec(s: &Vec<u8>, pos: usize) -> (r: Option<(Vec<u8>, Vec<u8>)>)
    requires
        pos <= s@.len(),
    ensures
        match r {
            Some(q) => accept_nums_at(s@, pos as int) matches Some(ops) && q.0@ == ops.0
                && q.1@ == ops.1
                && all_digits(q.0@) && q.0@.len() > 0
                && all_digits(q.1@) && q.1@.len() > 0,
            None => accept_nums_at(s@, pos as int) is None,
        },
{
    if !(pos < s.len() && s[pos] == 0x20) {
        return None;
    }
    let (d1, e1) = match digit_run_exec(s, pos + 1) {
        Some(x) => x,
        None => {
            return None;
        }
    };
    if !(e1 < s.len() && s[e1] == 0x20) {
        return None;
    }
    let (d2, _e2) = match digit_run_exec(s, e1 + 1) {
        Some(x) => x,
        None => {
            return None;
        }
    };
    Some((d1, d2))
}

/// Parse the first send offer of a line into a descriptor. Returns the
/// descriptor exactly when the line holds a complete offer whose address
/// fits a `u32` and whose size fits a `u64`; the resume offset starts at
/// zero. Oversized numbers make the whole line a parse failure, as does a
/// structurally malformed offer.
pub fn parse_dcc_send(line: &Vec<u8>) -> (r: Option<TransferDescriptor>)
    ensures
        r is Some <==> descriptor_of_line(line@) is Some,
        match r {
            Some(d) => spec_parse_dcc_send(line@) matches Some(ops) && d.filename@ == ops.0
                && d.ip as int == dec_val(ops.1) && d.port@ == ops.2
                && d.file_size as int == dec_val(ops.3) && d.resume_position == 0,
            None => spec_parse_dcc_send(line@) matches Some(ops) ==> (dec_val(ops.1)
                > u32::MAX || dec_val(ops.3) > u64::MAX),
        },
{
    let marker = send_marker_exec();
    let mut i: usize = 0;
    while i < line.len()
        invariant
            0 <= i <= line@.len(),
            marker@ == send_marker(),
            forall|j: int| 0 <= j < i ==> !send_match_at(line@, j),
        decreases line@.len() - i,
    {
        if match_at_exec(line, i, &marker) {
            match send_operands_exec(line, i + 9) {
                Some((name, ipd, portd, szd)) => {
                    proof {
                        assert(send_match_at(line@, i as int));
                        lemma_first_send(line@, 0);
                        assert(first_send_from(line@, 0) == i as int);
                    }
                    assert(ipd@.subrange(0, ipd@.len() as int) =~= ipd@);
                    assert(szd@.subrange(0, szd@.len() as int) =~= szd@);
                    let ipv = match parse_u64_range(&ipd, 0, ipd.len()) {
                        Some(v) => v,
                        None => {
                            proof {
                                crate::bytes::lemma_dec_val_nonneg(ipd@);
                            }
                            return None;
                        }
                    };
                    if ipv > 0xFFFF_FFFFu64 {
                        return None;
                    }
                    let size = match parse_u64_range(&szd, 0, szd.len()) {
                        Some(v) => v,
                        None => {
                            proof {
                                crate::bytes::lemma_dec_val_nonneg(szd@);
                            }
                            return None;
                        }
                    };
                    return Some(TransferDescriptor {
                        filename: name,
                        ip: ipv as u32,
                        port: portd,
                        file_size: size,
                        resume_position: 0,
                    });
                }
                None => {}
            }
        }
        i += 1;
    }
    proof {
        if is_dcc_send(line@) {
            let w = choose|j: int| send_match_at(line@, j);
            assert(0 <= w < line@.len());
        }
    }
    None
}

/// Parse the first resume acceptance of a line into its filename, port
/// digits and offset digits. Returns them exactly when the line holds a
/// complete acceptance.
pub fn parse_dcc_accept(line: &Vec<u8>) -> (r: Option<(Vec<u8>, Vec<u8>, Vec<u8>)>)
    ensures
        match r {
            Some(q) => spec_parse_dcc_accept(line@) matches Some(ops) && q.0@ == ops.0
                && q.1@ == ops.1 && q.2@ == ops.2,
            None => spec_parse_dcc_accept(line@) is None,
        },
{
    let marker = accept_marker_exec();
    let mut i: usize = 0;
    while i < line.len()
        invariant
            0 <= i <= line@.len(),
            marker@ == accept_marker(),
            forall|j: int| 0 <= j < i ==> !accept_match_at(line@, j),
        decreases line@.len() - i,
    {
        if match_at_exec(line, i, &marker) {
            match accept_operands_exec(line, i + 11) {
                Some((name, portd, offd)) => {
                    proof {
                        assert(accept_match_at(line@, i as int));
                        lemma_first_accept(line@, 0);
                        assert(first_accept_from(line@, 0) == i as int);
                    }
                    return Some((name, portd, offd));
                }
                None => {}
            }
        }
        i += 1;
    }
    proof {
        if is_dcc_accept(line@) {
            let w = choose|j: int| accept_match_at(line@, j);
            assert(0 <= w < line@.len());
        }
    }
    None
}

/// Whether the line holds a complete send offer anywhere.
pub fn has_dcc_send(line: &Vec<u8>) -> (r: bool)
    ensures
        r == is_dcc_send(line@),
{
    let marker = send_marker_exec();
    let mut i: usize = 0;
    while i < line.len()
        invariant
            0 <= i <= line@.len(),
            marker@ == send_marker(),
            forall|j: int| 0 <= j < i ==> !send_match_at(line@, j),
        decreases line@.len() - i,
    {
        if match_at_exec(line, i, &marker) {
            match send_operands_exec(line, i + 9) {
                Some(_) => {
                    assert(send_match_at(line@, i as int));
                    return true;
                }
                None => {}
            }
        }
        i += 1;
    }
    proof {
        if is_dcc_send(line@) {
            let w = choose|j: int| send_match_at(line@, j);
            assert(0 <= w < line@.len());
        }
    }
    false
}

/// Whether the line holds a complete resume acceptance anywhere.
pub fn has_dcc_accept(line: &Vec<u8>) -> (r: bool)
    ensures
        r == is_dcc_accept(line@),
{
    let marker = accept_marker_exec();
    let mut i: usize = 0;
    while i < line.len()
        invariant
            0 <= i <= line@.len(),
            marker@ == accept_marker(),
            forall|j: int| 0 <= j < i ==> !accept_match_at(line@, j),
        decreases line@.len() - i,
    {
        if match_at_exec(line, i, &marker) {
            match accept_operands_exec(line, i + 11) {
                Some(_) => {
                    assert(accept_match_at(line@, i as int));
                    return true;
                }
                None => {}
            }
        }
        i += 1;
    }
    proof {
        if is_dcc_accept(line@) {
            let w = choose|j: int| accept_match_at(line@, j);
            assert(0 <= w < line@.len());
        }
    }
    false
}

/// The data port named by the first resume acceptance of a line, as its
/// decimal digits from the wire.
pub fn parse_dcc_accept_port(line: &Vec<u8>) -> (r: Option<Vec<u8>>)
    ensures
        match r {
            Some(p) => spec_parse_dcc_accept(line@) matches Some(ops) && p@ == ops.1,
            None => spec_parse_dcc_accept(line@) is None,
        },
{
    match parse_dcc_accept(line) {
        Some((_name, port, _off)) => Some(port),
        None => None,
    }
}

/// Dotted-quad rendering of a 32-bit address in network byte order.
pub open spec fn ipv4_rep(ip: u32) -> Seq<u8> {
    dec_rep(ip as int / 0x1000000) + seq![0x2eu8] + dec_rep((ip as int / 0x10000) % 256)
        + seq![0x2eu8] + dec_rep((ip as int / 0x100) % 256) + seq![0x2eu8] + dec_rep(
        ip as int % 256,
    )
}

/// The `a.b.c.d` form of the descriptor's peer address, for opening the
/// data connection.
pub fn dotted_quad(ip: u32) -> (r: Vec<u8>)
    ensures
        r@ == ipv4_rep(ip),
{
    let mut r = render_u64((ip / 0x1000000) as u64);
    r.push(0x2e);
    let o2 = render_u64(((ip / 0x10000) % 256) as u64);
    append_vec(&mut r, &o2);
    r.push(0x2e);
    let o3 = render_u64(((ip / 0x100) % 256) as u64);
    append_vec(&mut r, &o3);
    r.push(0x2e);
    let o4 = render_u64((ip % 256) as u64);
    append_vec(&mut r, &o4);
    assert(r@ =~= ipv4_rep(ip));
    r
}

} // verus!
