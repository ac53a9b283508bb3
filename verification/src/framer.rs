//! Line framer: assembles discrete protocol lines from a raw byte stream
//! delivered in chunks of any size.
//!
//! A line is a maximal prefix ending in a line feed; the framer keeps any
//! trailing partial line in a carry buffer for the next chunk. The chunking
//! law [`lemma_chunked_equals_whole`] shows that the sequence of lines
//! produced does not depend on how the stream was cut into chunks.

use vstd::prelude::*;

verus! {

/// Largest number of bytes the carry buffer may hold without a complete
/// line before the stream is considered malformed.
pub const MAX_LINE_BYTES: usize = 4096;

/// `s` holds at least one line feed.
pub open spec fn has_lf(s: Seq<u8>) -> bool {
    exists|i: int| 0 <= i < s.len() && s[i] == 10
}

/// Index of the first line feed of `s` (equals `s.len()` when there is none).
pub open spec fn lf_pos(s: Seq<u8>) -> int
    decreases s.len(),
{
    if s.len() == 0 {
        0
    } else if s[0] == 10 {
        0
    } else {
        1 + lf_pos(s.drop_first())
    }
}

pub proof fn lemma_lf_pos(s: Seq<u8>)
    ensures
        0 <= lf_pos(s) <= s.len(),
        has_lf(s) ==> lf_pos(s) < s.len() && s[lf_pos(s)] == 10,
        forall|j: int| 0 <= j < lf_pos(s) ==> s[j] != 10,
        !has_lf(s) ==> lf_pos(s) == s.len(),
    decreases s.len(),
{
    if s.len() == 0 {
    } else if s[0] == 10 {
    } else {
        lemma_lf_pos(s.drop_first());
        assert(forall|j: int| 0 <= j < s.drop_first().len()
            ==> s.drop_first()[j] == #[trigger] s[j + 1]);
        assert forall|j: int| 0 <= j < lf_pos(s) implies s[j] != 10 by {
            if j > 0 {
                assert(s.drop_first()[j - 1] != 10);
            }
        }
        if has_lf(s) {
            let i = choose|i: int| 0 <= i < s.len() && s[i] == 10;
            assert(s.drop_first()[i - 1] == 10);
            assert(has_lf(s.drop_first()));
        }
        if has_lf(s.drop_first()) {
            let i = choose|i: int| 0 <= i < s.drop_first().len() && s.drop_first()[i] == 10;
            assert(s[i + 1] == 10);
            assert(has_lf(s));
        }
    }
}

/// The first line feed is the only index with a line feed and none before it.
pub proof fn lemma_lf_pos_unique(s: Seq<u8>, p: int)
    requires
        0 <= p < s.len(),
        s[p] == 10,
        forall|j: int| 0 <= j < p ==> s[j] != 10,
    ensures
        has_lf(s),
        lf_pos(s) == p,
{
    lemma_lf_pos(s);
    assert(has_lf(s));
    if lf_pos(s) < p {
        assert(s[lf_pos(s)] != 10);
    }
    if p < lf_pos(s) {
        assert(s[p] != 10);
    }
}

/// The complete lines of `s`, in order, each including its terminating
/// line feed.
pub open spec fn split_lines(s: Seq<u8>) -> Seq<Seq<u8>>
    decreases s.len(),
{
    if !has_lf(s) {
        Seq::empty()
    } else {
        let p = lf_pos(s);
        if 0 <= p < s.len() {
            seq![s.take(p + 1)] + split_lines(s.skip(p + 1))
        } else {
            Seq::empty()
        }
    }
}

/// What remains of `s` after its complete lines: the trailing partial line.
pub open spec fn line_rest(s: Seq<u8>) -> Seq<u8>
    decreases s.len(),
{
    if !has_lf(s) {
        s
    } else {
        let p = lf_pos(s);
        if 0 <= p < s.len() {
            line_rest(s.skip(p + 1))
        } else {
            s
        }
    }
}

/// Appending more bytes to a stream extends its lines: the lines of `a + b`
/// are the lines of `a` followed by the lines of `a`'s partial tail joined
/// with `b`, and the partial tails agree likewise.
pub proof fn lemma_lines_concat(a: Seq<u8>, b: Seq<u8>)
    ensures
        split_lines(a + b) == split_lines(a) + split_lines(line_rest(a) + b),
        line_rest(a + b) == line_rest(line_rest(a) + b),
    decreases a.len(),
{
    lemma_lf_pos(a);
    if !has_lf(a) {
        assert(line_rest(a) + b =~= a + b);
        assert(split_lines(a) + split_lines(a + b) =~= split_lines(a + b));
    } else {
        let p = lf_pos(a);
        lemma_lf_pos_unique(a + b, p);
        assert((a + b).take(p + 1) =~= a.take(p + 1));
        assert((a + b).skip(p + 1) =~= a.skip(p + 1) + b);
        lemma_lines_concat(a.skip(p + 1), b);
        assert(split_lines(a + b) == seq![a.take(p + 1)] + split_lines(a.skip(p + 1) + b));
        assert(seq![a.take(p + 1)] + (split_lines(a.skip(p + 1))
            + split_lines(line_rest(a.skip(p + 1)) + b))
            =~= (seq![a.take(p + 1)] + split_lines(a.skip(p + 1)))
                + split_lines(line_rest(a.skip(p + 1)) + b));
    }
}

/// The whole stream assembled from its chunks.
pub open spec fn concat_chunks(cs: Seq<Seq<u8>>) -> Seq<u8>
    decreases cs.len(),
{
    if cs.len() == 0 {
        Seq::empty()
    } else {
        concat_chunks(cs.drop_last()) + cs.last()
    }
}

/// The carry buffer left after feeding the chunks `cs` one by one and
/// draining all complete lines after each chunk.
pub open spec fn framer_carry(cs: Seq<Seq<u8>>) -> Seq<u8>
    decreases cs.len(),
{
    if cs.len() == 0 {
        Seq::empty()
    } else {
        line_rest(framer_carry(cs.drop_last()) + cs.last())
    }
}

/// All lines produced by feeding the chunks `cs` one by one and draining
/// all complete lines after each chunk.
pub open spec fn framer_lines(cs: Seq<Seq<u8>>) -> Seq<Seq<u8>>
    decreases cs.len(),
{
    if cs.len() == 0 {
        Seq::empty()
    } else {
        framer_lines(cs.drop_last())
            + split_lines(framer_carry(cs.drop_last()) + cs.last())
    }
}

/// Chunking law: however a byte stream is cut into chunks, feeding the
/// chunks produces exactly the lines of the whole stream, in the same
/// order, with the same partial tail left over.
pub proof fn lemma_chunked_equals_whole(cs: Seq<Seq<u8>>)
    ensures
        framer_lines(cs) == split_lines(concat_chunks(cs)),
        framer_carry(cs) == line_rest(concat_chunks(cs)),
    decreases cs.len(),
{
    if cs.len() == 0 {
        assert(!has_lf(Seq::<u8>::empty()));
    } else {
        lemma_chunked_equals_whole(cs.drop_last());
        lemma_lines_concat(concat_chunks(cs.drop_last()), cs.last());
        assert(framer_lines(cs) =~= split_lines(concat_chunks(cs)));
    }
}

/// Accumulates raw bytes and hands out complete lines.
pub struct LineFramer {
    pub carry: Vec<u8>,
}

impl LineFramer {
    /// A framer with an empty carry buffer.
    pub fn new() -> (r: LineFramer)
        ensures
            r.carry@ == Seq::<u8>::empty(),
    {
        LineFramer { carry: Vec::new() }
    }

    /// Append a newly received chunk to the carry buffer.
    pub fn push_chunk(&mut self, chunk: &[u8])
        ensures
            final(self).carry@ == old(self).carry@ + chunk@,
    {
        let mut k: usize = 0;
        while k < chunk.len()
            invariant
                0 <= k <= chunk@.len(),
                self.carry@ =~= old(self).carry@ + chunk@.take(k as int),
            decreases chunk@.len() - k,
        {
            self.carry.push(chunk[k]);
            assert(self.carry@ =~= old(self).carry@ + chunk@.take(k + 1 as int));
            k += 1;
        }
        assert(self.carry@ =~= old(self).carry@ + chunk@);
    }

    /// Remove and return the first complete line of the carry buffer,
    /// terminator included, or return nothing when no full line has
    /// arrived yet.
    pub fn take_line(&mut self) -> (r: Option<Vec<u8>>)
        ensures
            match r {
                Some(l) => has_lf(old(self).carry@)
                    && l@ == old(self).carry@.take(lf_pos(old(self).carry@) + 1)
                    && final(self).carry@ == old(self).carry@.skip(lf_pos(old(self).carry@) + 1),
                None => !has_lf(old(self).carry@) && final(self).carry@ == old(self).carry@,
            },
    {
        let n = self.carry.len();
        let mut i: usize = 0;
        while i < n
            invariant
                0 <= i <= n == self.carry@.len(),
                *self == *old(self),
                forall|j: int| 0 <= j < i ==> self.carry@[j] != 10,
            decreases n - i,
        {
            if self.carry[i] == 10 {
                proof {
                    lemma_lf_pos_unique(self.carry@, i as int);
                }
                let line = crate::bytes::sub_vec(&self.carry, 0, i + 1);
                let rest = crate::bytes::sub_vec(&self.carry, i + 1, n);
                assert(line@ =~= self.carry@.take(i + 1 as int));
                assert(rest@ =~= self.carry@.skip(i + 1 as int));
                self.carry = rest;
                return Some(line);
            }
            i += 1;
        }
        proof {
            lemma_lf_pos(self.carry@);
            if has_lf(self.carry@) {
                assert(self.carry@[lf_pos(self.carry@)] == 10);
            }
        }
        None
    }

    /// Remove and return every complete line waiting in the carry buffer,
    /// in order: exactly the lines of the buffered bytes, with their
    /// partial tail left behind. Together with [`lemma_chunked_equals_whole`]
    /// this ties the running framer to the whole-stream reading: draining
    /// after every chunk yields the lines of the entire stream.
    pub fn drain_lines(&mut self) -> (r: Vec<Vec<u8>>)
        ensures
            r.deep_view() == split_lines(old(self).carry@),
            final(self).carry@ == line_rest(old(self).carry@),
    {
        let mut out: Vec<Vec<u8>> = Vec::new();
        loop
            invariant
                out.deep_view() + split_lines(self.carry@) =~~= split_lines(old(self).carry@),
                line_rest(self.carry@) == line_rest(old(self).carry@),
            decreases self.carry@.len(),
        {
            let ghost pre_out = out.deep_view();
            let ghost pre_carry = self.carry@;
            match self.take_line() {
                Some(line) => {
                    let ghost l = line@;
                    out.push(line);
                    proof {
                        assert(out.deep_view() =~~= pre_out.push(l));
                        lemma_lf_pos(pre_carry);
                        assert(split_lines(pre_carry) == seq![l] + split_lines(self.carry@));
                        assert(pre_out.push(l) + split_lines(self.carry@) =~~= pre_out + (seq![l]
                            + split_lines(self.carry@)));
                    }
                }
                None => {
                    proof {
                        assert(split_lines(self.carry@) =~~= Seq::<Seq<u8>>::empty());
                        assert(out.deep_view() + split_lines(self.carry@) =~~= out.deep_view());
                    }
                    return out;
                }
            }
        }
    }

    /// Number of bytes waiting in the carry buffer.
    pub fn carry_len(&self) -> (r: usize)
        ensures
            r == self.carry@.len(),
    {
        self.carry.len()
    }

    /// Whether the carry buffer has grown past [`MAX_LINE_BYTES`]; the
    /// stream is then treated as malformed and the session fails rather
    /// than accumulate without bound.
    pub fn over_limit(&self) -> (r: bool)
        ensures
            r == (self.carry@.len() > MAX_LINE_BYTES),
    {
        self.carry.len() > MAX_LINE_BYTES
    }
}

} // verus!
