//! Byte-sequence primitives shared by the framer, the classifier and the
//! command renderer: decimal digit runs, pattern matching at and anywhere in
//! a byte sequence, and subrange extraction.

use vstd::prelude::*;

verus! {

/// ASCII decimal digit.
pub open spec fn is_digit(b: u8) -> bool {
    0x30 <= b <= 0x39
}

/// Every byte of `s` is an ASCII decimal digit.
pub open spec fn all_digits(s: Seq<u8>) -> bool {
    forall|i: int| 0 <= i < s.len() ==> is_digit(#[trigger] s[i])
}

/// Value of a sequence of ASCII digits read as a decimal number
/// (most significant digit first). Meaningful when `all_digits(s)`.
pub open spec fn dec_val(s: Seq<u8>) -> int
    decreases s.len(),
{
    if s.len() == 0 {
        0
    } else {
        dec_val(s.drop_last()) * 10 + (s.last() - 0x30)
    }
}

/// Shortest decimal representation of a non-negative number
/// (`dec_rep(0) == "0"`, no leading zeros otherwise).
pub open spec fn dec_rep(n: int) -> Seq<u8>
    decreases n,
{
    if n < 10 {
        seq![(0x30 + if n >= 0 { n } else { 0 }) as u8]
    } else {
        dec_rep(n / 10).push((0x30 + n % 10) as u8)
    }
}

pub proof fn lemma_dec_val_nonneg(s: Seq<u8>)
    requires
        all_digits(s),
    ensures
        dec_val(s) >= 0,
    decreases s.len(),
{
    if s.len() > 0 {
        assert(all_digits(s.drop_last())) by {
            assert(forall|i: int|
                0 <= i < s.len() - 1 ==> s.drop_last()[i] == #[trigger] s[i]);
        }
        lemma_dec_val_nonneg(s.drop_last());
    }
}

/// The value of a digit sequence is at least the value of any of its prefixes.
pub proof fn lemma_dec_val_prefix(s: Seq<u8>, i: int)
    requires
        all_digits(s),
        0 <= i <= s.len(),
    ensures
        dec_val(s.take(i)) <= dec_val(s),
    decreases s.len() - i,
{
    if i < s.len() {
        assert(s.take(i + 1).drop_last() =~= s.take(i));
        assert(s.take(i + 1).last() == s[i]);
        assert(all_digits(s.take(i))) by {
            assert(forall|j: int| 0 <= j < i ==> s.take(i)[j] == #[trigger] s[j]);
        }
        lemma_dec_val_nonneg(s.take(i));
        assert(dec_val(s.take(i + 1)) == dec_val(s.take(i)) * 10 + (s[i] - 0x30));
        assert(dec_val(s.take(i)) * 10 >= dec_val(s.take(i))) by (nonlinear_arith)
            requires dec_val(s.take(i)) >= 0;
        lemma_dec_val_prefix(s, i + 1);
        assert(s.take(s.len() as int) =~= s);
    } else {
        assert(s.take(i) =~= s);
    }
}

/// `pat` occurs in `s` starting at index `i`.
pub open spec fn match_at(s: Seq<u8>, i: int, pat: Seq<u8>) -> bool {
    0 <= i && i + pat.len() <= s.len() && s.subrange(i, i + pat.len()) == pat
}

/// `pat` occurs somewhere in `s`.
pub open spec fn contains_seq(s: Seq<u8>, pat: Seq<u8>) -> bool {
    exists|i: int| match_at(s, i, pat)
}

/// Whether `pat` occurs in `s` at index `i`.
pub fn match_at_exec(s: &Vec<u8>, i: usize, pat: &Vec<u8>) -> (r: bool)
    ensures
        r == match_at(s@, i as int, pat@),
{
    if i > s.len() || pat.len() > s.len() - i {
        assert(!match_at(s@, i as int, pat@));
        return false;
    }
    let mut k: usize = 0;
    while k < pat.len()
        invariant
            0 <= k <= pat@.len(),
            i + pat@.len() <= s@.len() <= usize::MAX,
            forall|j: int| 0 <= j < k ==> s@[i + j] == #[trigger] pat@[j],
        decreases pat@.len() - k,
    {
        assert(i + k < s@.len());
        if s[i + k] != pat[k] {
            assert(s@.subrange(i as int, i + pat@.len())[k as int] != pat@[k as int]);
            return false;
        }
        k += 1;
    }
    assert(s@.subrange(i as int, i + pat@.len()) =~= pat@);
    true
}

/// Index of the first occurrence of `pat` in `s`, if any.
pub fn find_pat(s: &Vec<u8>, pat: &Vec<u8>) -> (r: Option<usize>)
    requires
        pat@.len() > 0,
    ensures
        match r {
            Some(i) => match_at(s@, i as int, pat@)
                && forall|j: int| 0 <= j < i ==> !match_at(s@, j, pat@),
            None => !contains_seq(s@, pat@),
        },
{
    let mut i: usize = 0;
    while i < s.len()
        invariant
            forall|j: int| 0 <= j < i ==> !match_at(s@, j, pat@),
        decreases s@.len() - i,
    {
        if match_at_exec(s, i, pat) {
            return Some(i);
        }
        i += 1;
    }
    assert forall|j: int| !match_at(s@, j, pat@) by {
        if match_at(s@, j, pat@) {
            assert(0 <= j && j + pat@.len() <= s@.len());
            assert(j < i);
        }
    }
    None
}

/// Copy of `s[from..to]`.
pub fn sub_vec(s: &Vec<u8>, from: usize, to: usize) -> (r: Vec<u8>)
    requires
        from <= to <= s@.len(),
    ensures
        r@ == s@.subrange(from as int, to as int),
{
    let mut r: Vec<u8> = Vec::new();
    let mut k: usize = from;
    while k < to
        invariant
            from <= k <= to <= s@.len(),
            r@ =~= s@.subrange(from as int, k as int),
        decreases to - k,
    {
        r.push(s[k]);
        assert(r@ =~= s@.subrange(from as int, k + 1 as int));
        k += 1;
    }
    r
}

/// Fresh copy of a byte vector.
pub fn copy_bytes(s: &Vec<u8>) -> (r: Vec<u8>)
    ensures
        r@ == s@,
{
    let r = sub_vec(s, 0, s.len());
    assert(s@.subrange(0, s@.len() as int) =~= s@);
    r
}

/// Whether two byte vectors hold the same bytes.
pub fn eq_bytes(a: &Vec<u8>, b: &Vec<u8>) -> (r: bool)
    ensures
        r == (a@ == b@),
{
    if a.len() != b.len() {
        assert(a@ != b@);
        return false;
    }
    let mut k: usize = 0;
    while k < a.len()
        invariant
            0 <= k <= a@.len(),
            a@.len() == b@.len(),
            forall|j: int| 0 <= j < k ==> a@[j] == #[trigger] b@[j],
        decreases a@.len() - k,
    {
        if a[k] != b[k] {
            return false;
        }
        k += 1;
    }
    assert(a@ =~= b@);
    true
}

/// Append all bytes of `src` to `dst`.
pub fn append_vec(dst: &mut Vec<u8>, src: &Vec<u8>)
    ensures
        final(dst)@ == old(dst)@ + src@,
{
    let mut k: usize = 0;
    while k < src.len()
        invariant
            0 <= k <= src@.len(),
            dst@ =~= old(dst)@ + src@.take(k as int),
        decreases src@.len() - k,
    {
        dst.push(src[k]);
        assert(dst@ =~= old(dst)@ + src@.take(k + 1 as int));
        k += 1;
    }
    assert(dst@ =~= old(dst)@ + src@);
}

/// Decimal rendering of `n`, most significant digit first.
pub fn render_u64(n: u64) -> (r: Vec<u8>)
    ensures
        r@ == dec_rep(n as int),
    decreases n,
{
    if n < 10 {
        let mut r: Vec<u8> = Vec::new();
        r.push(0x30 + (n as u8));
        assert(r@ =~= dec_rep(n as int));
        r
    } else {
        let mut r = render_u64(n / 10);
        r.push(0x30 + ((n % 10) as u8));
        r
    }
}

/// Parse `s[from..to]` as an unsigned decimal number. Returns the value
/// exactly when the range is non-empty, all digits, and the value fits in
/// a `u64`.
pub fn parse_u64_range(s: &Vec<u8>, from: usize, to: usize) -> (r: Option<u64>)
    requires
        from <= to <= s@.len(),
    ensures
        ({
            let digits = s@.subrange(from as int, to as int);
            match r {
                Some(v) => from < to && all_digits(digits) && v as int == dec_val(digits)
                    && dec_val(digits) <= u64::MAX,
                None => !(from < to && all_digits(digits) && dec_val(digits) <= u64::MAX),
            }
        }),
{
    let ghost digits = s@.subrange(from as int, to as int);
    if from == to {
        return None;
    }
    let mut acc: u64 = 0;
    let mut k: usize = from;
    while k < to
        invariant
            from <= k <= to <= s@.len(),
            digits == s@.subrange(from as int, to as int),
            all_digits(digits.take(k - from)),
            acc as int == dec_val(digits.take(k - from)),
        decreases to - k,
    {
        let b = s[k];
        if b < 0x30 || b > 0x39 {
            assert(digits[k - from] == b);
            assert(!all_digits(digits));
            return None;
        }
        let d = (b - 0x30) as u64;
        assert(digits.take(k - from + 1).drop_last() =~= digits.take(k - from));
        assert(digits.take(k - from + 1).last() == digits[k - from]);
        assert(digits[k - from] == b);
        let acc10 = match acc.checked_mul(10) {
            Some(x) => x,
            None => {
                proof {
                    overflow_means_no_fit(digits, k - from, acc as int, d as int);
                }
                return None;
            }
        };
        acc = match acc10.checked_add(d) {
            Some(x) => x,
            None => {
                proof {
                    overflow_means_no_fit(digits, k - from, acc as int, d as int);
                }
                return None;
            }
        };
        k += 1;
    }
    assert(digits.take(to - from) =~= digits);
    Some(acc)
}

/// If the running value exceeds `u64::MAX` at some prefix, the whole digit
/// run cannot fit either.
proof fn overflow_means_no_fit(digits: Seq<u8>, k: int, acc: int, d: int)
    requires
        0 <= k < digits.len(),
        all_digits(digits.take(k)),
        acc == dec_val(digits.take(k)),
        d == digits[k] - 0x30,
        is_digit(digits[k]),
        acc * 10 + d > u64::MAX,
    ensures
        !(all_digits(digits) && dec_val(digits) <= u64::MAX),
{
    if all_digits(digits) {
        assert(digits.take(k + 1).drop_last() =~= digits.take(k));
        assert(digits.take(k + 1).last() == digits[k]);
        assert(dec_val(digits.take(k + 1)) == acc * 10 + d);
        lemma_dec_val_prefix(digits, k + 1);
    }
}

} // verus!
