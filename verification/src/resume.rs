//! Resume coordination: outstanding resume requests keyed by data port.
//!
//! When a send offer names a file that already exists locally with a
//! partial size, the session answers with a resume request and parks the
//! descriptor here until a matching acceptance names the same port. Ports
//! are kept as their wire digits; keys are unique within one session.

use vstd::prelude::*;
use crate::bytes::eq_bytes;
use crate::descriptor::TransferDescriptor;

verus! {

/// Mapping from data port to the descriptor waiting on that port.
pub struct ResumeTable {
    pub entries: Vec<(Vec<u8>, TransferDescriptor)>,
}

impl ResumeTable {
    /// No two entries share a port.
    pub open spec fn keys_unique(self) -> bool {
        forall|i: int, j: int|
            0 <= i < j < self.entries@.len() ==> self.entries@[i].0@ != self.entries@[j].0@
    }

    /// An entry for `port` is present.
    pub open spec fn spec_contains(self, port: Seq<u8>) -> bool {
        exists|i: int| 0 <= i < self.entries@.len() && self.entries@[i].0@ == port
    }

    /// The descriptor stored for `port`; meaningful when present.
    pub open spec fn spec_get(self, port: Seq<u8>) -> TransferDescriptor {
        let i = choose|i: int| 0 <= i < self.entries@.len() && self.entries@[i].0@ == port;
        self.entries@[i].1
    }

    /// With unique keys, any entry whose port matches holds the stored
    /// descriptor.
    pub proof fn lemma_get_at(self, port: Seq<u8>, i: int)
        requires
            self.keys_unique(),
            0 <= i < self.entries@.len(),
            self.entries@[i].0@ == port,
        ensures
            self.spec_contains(port),
            self.spec_get(port) == self.entries@[i].1,
    {
        assert(self.spec_contains(port));
        let j = choose|j: int| 0 <= j < self.entries@.len() && self.entries@[j].0@ == port;
        if i != j {
            assert(self.entries@[i].0@ != self.entries@[j].0@);
        }
    }

    /// An empty table.
    pub fn new() -> (r: ResumeTable)
        ensures
            r.entries@.len() == 0,
            r.keys_unique(),
            forall|p: Seq<u8>| !r.spec_contains(p),
    {
        ResumeTable { entries: Vec::new() }
    }

    /// Number of outstanding resume requests.
    pub fn len(&self) -> (r: usize)
        ensures
            r == self.entries@.len(),
    {
        self.entries.len()
    }

    /// Whether a request is outstanding on `port`.
    pub fn contains(&self, port: &Vec<u8>) -> (r: bool)
        ensures
            r == self.spec_contains(port@),
    {
        let mut i: usize = 0;
        while i < self.entries.len()
            invariant
                0 <= i <= self.entries@.len(),
                forall|j: int| 0 <= j < i ==> self.entries@[j].0@ != port@,
            decreases self.entries@.len() - i,
        {
            if eq_bytes(&self.entries[i].0, port) {
                return true;
            }
            i += 1;
        }
        false
    }

    /// Record an outstanding resume request: any earlier entry on the same
    /// port is replaced, every other entry is kept.
    pub fn insert(&mut self, port: Vec<u8>, d: TransferDescriptor)
        requires
            old(self).keys_unique(),
        ensures
            final(self).keys_unique(),
            final(self).spec_contains(port@),
            final(self).spec_get(port@) == d,
            forall|p: Seq<u8>|
                p != port@ ==> final(self).spec_contains(p) == old(self).spec_contains(p),
            forall|p: Seq<u8>|
                p != port@ && old(self).spec_contains(p) ==> final(self).spec_get(p) == old(
                    self,
                ).spec_get(p),
    {
        let ghost pre = *old(self);
        let mut i: usize = 0;
        let mut found: Option<usize> = None;
        while i < self.entries.len()
            invariant
                0 <= i <= self.entries@.len(),
                *self == pre,
                pre == *old(self),
                pre.keys_unique(),
                match found {
                    Some(k) => k < i && self.entries@[k as int].0@ == port@,
                    None => forall|j: int| 0 <= j < i ==> self.entries@[j].0@ != port@,
                },
            decreases self.entries@.len() - i,
        {
            match found {
                Some(_) => {}
                None => {
                    if eq_bytes(&self.entries[i].0, &port) {
                        found = Some(i);
                    }
                }
            }
            i += 1;
        }
        match found {
            Some(k) => {
                self.entries.remove(k);
                proof {
                    assert forall|a: int, b: int|
                        0 <= a < b < self.entries@.len() implies self.entries@[a].0@
                        != self.entries@[b].0@ by {
                        if a < k {
                            assert(self.entries@[a] == pre.entries@[a]);
                        } else {
                            assert(self.entries@[a] == pre.entries@[a + 1]);
                        }
                        if b < k {
                            assert(self.entries@[b] == pre.entries@[b]);
                        } else {
                            assert(self.entries@[b] == pre.entries@[b + 1]);
                        }
                    }
                }
            }
            None => {}
        }
        let ghost mid = *self;
        self.entries.push((port, d));
        proof {
            let n = self.entries@.len() - 1;
            assert(self.entries@[n].0@ == port@);
            // removed entry was the only one with this port, so uniqueness holds
            assert forall|a: int, b: int|
                0 <= a < b < self.entries@.len() implies self.entries@[a].0@
                != self.entries@[b].0@ by {
                if b < n {
                    assert(self.entries@[a] == mid.entries@[a]);
                    assert(self.entries@[b] == mid.entries@[b]);
                } else {
                    if a < n {
                        assert(self.entries@[a] == mid.entries@[a]);
                        match found {
                            Some(k) => {
                                let ka = if a < k { a } else { a + 1 };
                                assert(mid.entries@[a] == pre.entries@[ka]);
                                if pre.entries@[ka].0@ == port@ {
                                    pre.lemma_get_at(port@, ka);
                                    assert(pre.entries@[k as int].0@ == port@);
                                    if ka != k {
                                        assert(false);
                                    }
                                    assert(a == k || a + 1 == k);
                                    assert(false);
                                }
                            }
                            None => {
                                assert(mid.entries@[a].0@ != port@);
                            }
                        }
                    }
                }
            }
            self.lemma_get_at(port@, n);
            assert forall|p: Seq<u8>|
                p != port@ implies final(self).spec_contains(p) == pre.spec_contains(p) by {
                lemma_membership_after_replace(pre, mid, *self, found, port@, p);
            }
            assert forall|p: Seq<u8>|
                p != port@ && pre.spec_contains(p) implies final(self).spec_get(p)
                == pre.spec_get(p) by {
                lemma_membership_after_replace(pre, mid, *self, found, port@, p);
            }
        }
    }

    /// Take the descriptor waiting on `port`, removing the entry; nothing
    /// happens when no request is outstanding on that port.
    pub fn remove(&mut self, port: &Vec<u8>) -> (r: Option<TransferDescriptor>)
        requires
            old(self).keys_unique(),
        ensures
            final(self).keys_unique(),
            match r {
                Some(d) => old(self).spec_contains(port@) && d == old(self).spec_get(port@)
                    && !final(self).spec_contains(port@)
                    && final(self).entries@.len() == old(self).entries@.len() - 1,
                None => !old(self).spec_contains(port@) && *final(self) == *old(self),
            },
            forall|p: Seq<u8>|
                p != port@ ==> final(self).spec_contains(p) == old(self).spec_contains(p),
            forall|p: Seq<u8>|
                p != port@ && old(self).spec_contains(p) ==> final(self).spec_get(p) == old(
                    self,
                ).spec_get(p),
    {
        let ghost pre = *old(self);
        let mut i: usize = 0;
        while i < self.entries.len()
            invariant
                0 <= i <= self.entries@.len(),
                *self == pre,
                pre == *old(self),
                pre.keys_unique(),
                forall|j: int| 0 <= j < i ==> self.entries@[j].0@ != port@,
            decreases self.entries@.len() - i,
        {
            if eq_bytes(&self.entries[i].0, port) {
                proof {
                    pre.lemma_get_at(port@, i as int);
                }
                let entry = self.entries.remove(i);
                proof {
                    assert forall|a: int, b: int|
                        0 <= a < b < self.entries@.len() implies self.entries@[a].0@
                        != self.entries@[b].0@ by {
                        let pa = if a < i { a } else { a + 1 };
                        let pb = if b < i { b } else { b + 1 };
                        assert(self.entries@[a] == pre.entries@[pa]);
                        assert(self.entries@[b] == pre.entries@[pb]);
                    }
                    if final(self).spec_contains(port@) {
                        let w = choose|w: int|
                            0 <= w < self.entries@.len() && self.entries@[w].0@ == port@;
                        let pw = if w < i { w } else { w + 1 };
                        assert(pre.entries@[pw].0@ == port@);
                        pre.lemma_get_at(port@, pw);
                        assert(pw != i ==> pre.entries@[pw].0@ != pre.entries@[i as int].0@);
                        assert(false);
                    }
                    assert forall|p: Seq<u8>|
                        p != port@ implies final(self).spec_contains(p) == pre.spec_contains(
                        p,
                    ) by {
                        lemma_membership_after_remove(pre, *self, i as int, p);
                    }
                    assert forall|p: Seq<u8>|
                        p != port@ && pre.spec_contains(p) implies final(self).spec_get(p)
                        == pre.spec_get(p) by {
                        lemma_membership_after_remove(pre, *self, i as int, p);
                    }
                }
                return Some(entry.1);
            }
            i += 1;
        }
        None
    }
}

/// After removing index `i` from `pre` to get `post`, membership and lookup
/// of every port other than the removed one are preserved.
proof fn lemma_membership_after_remove(
    pre: ResumeTable,
    post: ResumeTable,
    i: int,
    p: Seq<u8>,
)
    requires
        pre.keys_unique(),
        0 <= i < pre.entries@.len(),
        post.entries@ == pre.entries@.remove(i),
        p != pre.entries@[i].0@,
    ensures
        post.spec_contains(p) == pre.spec_contains(p),
        pre.spec_contains(p) ==> post.spec_get(p) == pre.spec_get(p),
{
    assert(post.keys_unique()) by {
        assert forall|a: int, b: int|
            0 <= a < b < post.entries@.len() implies post.entries@[a].0@ != post.entries@[b].0@
            by {
            let pa = if a < i { a } else { a + 1 };
            let pb = if b < i { b } else { b + 1 };
            assert(post.entries@[a] == pre.entries@[pa]);
            assert(post.entries@[b] == pre.entries@[pb]);
        }
    }
    if pre.spec_contains(p) {
        let w = choose|w: int| 0 <= w < pre.entries@.len() && pre.entries@[w].0@ == p;
        pre.lemma_get_at(p, w);
        let nw = if w < i { w } else { w - 1 };
        assert(w != i);
        assert(post.entries@[nw] == pre.entries@[w]);
        post.lemma_get_at(p, nw);
    }
    if post.spec_contains(p) {
        let w = choose|w: int| 0 <= w < post.entries@.len() && post.entries@[w].0@ == p;
        let pw = if w < i { w } else { w + 1 };
        assert(pre.entries@[pw] == post.entries@[w]);
        assert(pre.spec_contains(p));
    }
}

/// After optionally removing the old entry for `port` and pushing a fresh
/// one, membership and lookup of every other port are preserved.
proof fn lemma_membership_after_replace(
    pre: ResumeTable,
    mid: ResumeTable,
    post: ResumeTable,
    found: Option<usize>,
    port: Seq<u8>,
    p: Seq<u8>,
)
    requires
        pre.keys_unique(),
        match found {
            Some(k) => (k as int) < pre.entries@.len() && pre.entries@[k as int].0@ == port
                && mid.entries@ == pre.entries@.remove(k as int),
            None => mid == pre,
        },
        post.entries@.len() == mid.entries@.len() + 1,
        post.entries@ == mid.entries@.push(post.entries@.last()),
        post.entries@.last().0@ == port,
        post.keys_unique(),
        mid.keys_unique(),
        p != port,
    ensures
        post.spec_contains(p) == pre.spec_contains(p),
        pre.spec_contains(p) ==> post.spec_get(p) == pre.spec_get(p),
{
    // membership and lookup in mid agree with pre for p
    match found {
        Some(k) => {
            lemma_membership_after_remove(pre, mid, k as int, p);
        }
        None => {}
    }
    // pushing an entry keyed by port changes nothing for p
    if mid.spec_contains(p) {
        let w = choose|w: int| 0 <= w < mid.entries@.len() && mid.entries@[w].0@ == p;
        mid.lemma_get_at(p, w);
        assert(post.entries@[w] == mid.entries@[w]);
        post.lemma_get_at(p, w);
    }
    if post.spec_contains(p) {
        let w = choose|w: int| 0 <= w < post.entries@.len() && post.entries@[w].0@ == p;
        assert(w < mid.entries@.len());
        assert(mid.entries@[w] == post.entries@[w]);
        assert(mid.spec_contains(p));
    }
}

} // verus!
