//! Episode-list parsing: a comma-separated list of episode numbers.
//!
//! Every piece between commas must be a valid episode number: an optional
//! leading plus sign, then one or more decimal digits, with a value that
//! fits in a `u16`. The first invalid piece is handed back so the caller
//! can say which one was rejected. An empty input has one empty piece and
//! is therefore rejected.

use vstd::prelude::*;
use crate::bytes::{all_digits, dec_val, parse_u64_range, sub_vec};
use crate::descriptor::{scan_exec, scan_from, lemma_scan_from, ScanKind};

verus! {

/// The digits of a piece, with an optional leading plus sign stripped.
pub open spec fn ep_digits(c: Seq<u8>) -> Seq<u8> {
    if c.len() > 0 && c[0] == 0x2b {
        c.skip(1)
    } else {
        c
    }
}

/// A valid episode number: at least one digit, digits only, value at most
/// the largest `u16`.
pub open spec fn ep_valid(c: Seq<u8>) -> bool {
    ep_digits(c).len() > 0 && all_digits(ep_digits(c)) && dec_val(ep_digits(c)) <= u16::MAX
}

/// The value of a valid piece.
pub open spec fn ep_value(c: Seq<u8>) -> int {
    dec_val(ep_digits(c))
}

/// The parsed episode list of `s`, or the first invalid piece.
pub open spec fn episodes_of(s: Seq<u8>) -> Result<Seq<u16>, Seq<u8>>
    decreases s.len(),
{
    let p = scan_from(s, 0, ScanKind::Comma);
    let chunk = s.take(if p <= s.len() { p } else { s.len() as int });
    if !ep_valid(chunk) {
        Err(chunk)
    } else if 0 <= p < s.len() {
        match episodes_of(s.skip(p + 1)) {
            Ok(rest) => Ok(seq![ep_value(chunk) as u16] + rest),
            Err(e) => Err(e),
        }
    } else {
        Ok(seq![ep_value(chunk) as u16])
    }
}

/// One piece of `s` spanning `[k, p)`: its value when valid.
fn parse_piece(s: &Vec<u8>, k: usize, p: usize) -> (r: Option<u16>)
    requires
        k <= p <= s@.len(),
    ensures
        ({
            let chunk = s@.subrange(k as int, p as int);
            match r {
                Some(v) => ep_valid(chunk) && v as int == ep_value(chunk),
                None => !ep_valid(chunk),
            }
        }),
{
    let ghost chunk = s@.subrange(k as int, p as int);
    let dstart: usize = if k < p && s[k] == 0x2b {
        k + 1
    } else {
        k
    };
    proof {
        if k < p && s@[k as int] == 0x2b {
            assert(chunk[0] == 0x2b);
            assert(ep_digits(chunk) =~= s@.subrange(k + 1 as int, p as int));
        } else {
            if chunk.len() > 0 {
                assert(chunk[0] == s@[k as int]);
            }
            assert(ep_digits(chunk) =~= chunk);
        }
    }
    match parse_u64_range(s, dstart, p) {
        Some(v) => {
            if v <= 0xFFFF {
                Some(v as u16)
            } else {
                None
            }
        }
        None => None,
    }
}

/// Parse a comma-separated episode list. Returns the numbers in order
/// exactly when every piece is valid, else the first invalid piece.
pub fn parse_episodes(s: &Vec<u8>) -> (r: Result<Vec<u16>, Vec<u8>>)
    ensures
        match r {
            Ok(v) => episodes_of(s@) matches Ok(eps) && v@ == eps,
            Err(c) => episodes_of(s@) matches Err(e) && c@ == e,
        },
{
    assert(s@.skip(0) =~= s@);
    parse_episodes_from(s, 0)
}

/// Parse the episode list in `s[k..]`.
fn parse_episodes_from(s: &Vec<u8>, k: usize) -> (r: Result<Vec<u16>, Vec<u8>>)
    requires
        k <= s@.len(),
    ensures
        match r {
            Ok(v) => episodes_of(s@.skip(k as int)) matches Ok(eps) && v@ == eps,
            Err(c) => episodes_of(s@.skip(k as int)) matches Err(e) && c@ == e,
        },
    decreases s@.len() - k,
{
    let ghost suffix = s@.skip(k as int);
    let p = scan_exec(s, k, ScanKind::Comma);
    proof {
        lemma_scan_from(s@, k as int, ScanKind::Comma);
        // the scan in the suffix lands at the same piece boundary
        assert(scan_from(suffix, 0, ScanKind::Comma) == scan_from(s@, k as int, ScanKind::Comma)
            - k) by {
            lemma_scan_shift(s@, k as int);
        }
        assert(suffix.take(p - k) =~= s@.subrange(k as int, p as int));
    }
    let val = match parse_piece(s, k, p) {
        Some(v) => v,
        None => {
            return Err(sub_vec(s, k, p));
        }
    };
    if p < s.len() {
        proof {
            assert(suffix.skip(p - k + 1) =~= s@.skip(p + 1 as int));
        }
        match parse_episodes_from(s, p + 1) {
            Ok(rest) => {
                let mut v: Vec<u16> = Vec::new();
                v.push(val);
                let mut j: usize = 0;
                while j < rest.len()
                    invariant
                        0 <= j <= rest@.len(),
                        v@ =~= seq![val].add(rest@.take(j as int)),
                    decreases rest@.len() - j,
                {
                    v.push(rest[j]);
                    assert(v@ =~= seq![val].add(rest@.take(j + 1 as int)));
                    j += 1;
                }
                assert(v@ =~= seq![val].add(rest@));
                Ok(v)
            }
            Err(e) => Err(e),
        }
    } else {
        let mut v: Vec<u16> = Vec::new();
        v.push(val);
        assert(v@ =~= seq![val]);
        Ok(v)
    }
}

/// Scanning a suffix finds the same first comma as scanning the whole from
/// the cut point.
proof fn lemma_scan_shift(s: Seq<u8>, k: int)
    requires
        0 <= k <= s.len(),
    ensures
        scan_from(s.skip(k), 0, ScanKind::Comma) == scan_from(s, k, ScanKind::Comma) - k,
{
    let suffix = s.skip(k);
    lemma_scan_from(s, k, ScanKind::Comma);
    lemma_scan_from(suffix, 0, ScanKind::Comma);
    let a = scan_from(s, k, ScanKind::Comma);
    let b = scan_from(suffix, 0, ScanKind::Comma);
    assert(forall|j: int| 0 <= j < suffix.len() ==> suffix[j] == #[trigger] s[j + k]);
    if b < a - k {
        assert(suffix[b] == s[b + k]);
    }
    if a - k < b {
        assert(s[a] == suffix[a - k]);
    }
}

} // verus!
