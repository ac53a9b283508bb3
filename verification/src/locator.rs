//! Package selection over the catalog's answers.
//!
//! The catalog itself is an outside HTTP service; the caller fetches the
//! search results and the bot list and hands them in as plain values
//! (`None` standing for a fetch that failed). The selection rules are
//! verified here: the first search hit wins, its bot id must resolve
//! through the bot list, and each episode of a multi-episode order is
//! resolved in order, the first failure naming its episode.

use vstd::prelude::*;

verus! {

/// One resolved order: which package number to request from which bot.
pub struct DCCPackage {
    pub number: i32,
    pub bot: String,
}

/// One row of the catalog's search answer.
pub struct SearchHit {
    pub bot_id: i64,
    pub number: i32,
}

/// One row of the catalog's bot list.
pub struct Bot {
    pub id: i64,
    pub name: String,
}

/// Why an order could not be resolved.
#[derive(Clone, Copy, PartialEq, Eq, Structural, Debug)]
pub enum LocatorError {
    /// The search itself failed (the catalog could not be reached).
    SearchFailed,
    /// The search answered with no results.
    NoResults,
    /// The winning hit's bot is not in the bot list (or the list could
    /// not be had).
    BotUnavailable,
}

/// Index of the first bot with this id at or after `k`, or `bots.len()`.
pub open spec fn first_bot_from(bots: Seq<Bot>, id: i64, k: int) -> int
    decreases bots.len() - k,
{
    if k < 0 || k >= bots.len() {
        bots.len() as int
    } else if bots[k].id == id {
        k
    } else {
        first_bot_from(bots, id, k + 1)
    }
}

/// Some bot carries this id.
pub open spec fn has_bot(bots: Seq<Bot>, id: i64) -> bool {
    exists|i: int| 0 <= i < bots.len() && bots[i].id == id
}

pub proof fn lemma_first_bot(bots: Seq<Bot>, id: i64, k: int)
    requires
        0 <= k <= bots.len(),
    ensures
        ({
            let r = first_bot_from(bots, id, k);
            &&& k <= r <= bots.len()
            &&& r < bots.len() ==> bots[r].id == id
            &&& forall|j: int| k <= j < r ==> bots[j].id != id
        }),
    decreases bots.len() - k,
{
    if k < bots.len() && bots[k].id != id {
        lemma_first_bot(bots, id, k + 1);
    }
}

/// The selection of one search answer succeeds: a first hit exists and its
/// bot id resolves through the bot list.
pub open spec fn selection_ok(search: Option<Vec<SearchHit>>, bots: Option<Vec<Bot>>) -> bool {
    &&& search matches Some(list) && list@.len() > 0
    &&& bots matches Some(bl) && has_bot(bl@, search->Some_0@[0].bot_id)
}

/// Why the selection of one search answer fails.
pub open spec fn selection_err(search: Option<Vec<SearchHit>>, bots: Option<Vec<Bot>>)
    -> LocatorError {
    match search {
        None => LocatorError::SearchFailed,
        Some(list) => if list@.len() == 0 {
            LocatorError::NoResults
        } else {
            LocatorError::BotUnavailable
        },
    }
}

/// The winning package number: the first hit's.
pub open spec fn selected_number(search: Option<Vec<SearchHit>>) -> i32 {
    search->Some_0@[0].number
}

/// The winning bot name: the first bot carrying the winning hit's id.
pub open spec fn selected_bot(search: Option<Vec<SearchHit>>, bots: Option<Vec<Bot>>)
    -> Seq<char> {
    let bl = bots->Some_0@;
    bl[first_bot_from(bl, search->Some_0@[0].bot_id, 0)].name@
}

/// The name of the first bot carrying this id, out of a bot list that may
/// have failed to load.
pub fn find_bot_name(id: &i64, bots: &Option<Vec<Bot>>) -> (r: Option<String>)
    ensures
        match *bots {
            None => r is None,
            Some(bl) => if has_bot(bl@, *id) {
                r matches Some(name) && name@ == bl@[first_bot_from(bl@, *id, 0)].name@
            } else {
                r is None
            },
        },
{
    match bots {
        None => None,
        Some(bl) => {
            let mut i: usize = 0;
            while i < bl.len()
                invariant
                    0 <= i <= bl@.len(),
                    *bots == Some(*bl),
                    forall|j: int| 0 <= j < i ==> bl@[j].id != *id,
                decreases bl@.len() - i,
            {
                if bl[i].id == *id {
                    proof {
                        lemma_first_bot(bl@, *id, 0);
                        assert(first_bot_from(bl@, *id, 0) == i as int) by {
                            let r = first_bot_from(bl@, *id, 0);
                            if r < i as int {
                                assert(bl@[r].id != *id);
                            }
                            if (i as int) < r {
                                assert(bl@[i as int].id != *id);
                            }
                        }
                    }
                    return Some(bl[i].name.clone());
                }
                i += 1;
            }
            proof {
                if has_bot(bl@, *id) {
                    let w = choose|j: int| 0 <= j < bl@.len() && bl@[j].id == *id;
                    assert(bl@[w].id != *id);
                }
            }
            None
        }
    }
}

/// Resolve one order out of a search answer and a bot list: the first hit
/// wins and its bot id must resolve; each way to fail names its reason.
pub fn find_package(search: &Option<Vec<SearchHit>>, bots: &Option<Vec<Bot>>) -> (r: Result<
    DCCPackage,
    LocatorError,
>)
    ensures
        selection_ok(*search, *bots) ==> (r matches Ok(p) && p.number == selected_number(*search)
            && p.bot@ == selected_bot(*search, *bots)),
        !selection_ok(*search, *bots) ==> r == Err::<DCCPackage, LocatorError>(
            selection_err(*search, *bots),
        ),
{
    let list = match search {
        Some(list) => list,
        None => {
            return Err(LocatorError::SearchFailed);
        }
    };
    if list.len() == 0 {
        return Err(LocatorError::NoResults);
    }
    let first_number = list[0].number;
    let first_bot_id = list[0].bot_id;
    match find_bot_name(&first_bot_id, bots) {
        Some(name) => Ok(DCCPackage { number: first_number, bot: name }),
        None => Err(LocatorError::BotUnavailable),
    }
}

/// Index of the first search answer whose selection fails, or the count.
pub open spec fn first_bad_from(
    searches: Seq<Option<Vec<SearchHit>>>,
    bots: Option<Vec<Bot>>,
    k: int,
) -> int
    decreases searches.len() - k,
{
    if k < 0 || k >= searches.len() {
        searches.len() as int
    } else if !selection_ok(searches[k], bots) {
        k
    } else {
        first_bad_from(searches, bots, k + 1)
    }
}

pub proof fn lemma_first_bad(searches: Seq<Option<Vec<SearchHit>>>, bots: Option<Vec<Bot>>, k: int)
    requires
        0 <= k <= searches.len(),
    ensures
        ({
            let r = first_bad_from(searches, bots, k);
            &&& k <= r <= searches.len()
            &&& r < searches.len() ==> !selection_ok(searches[r], bots)
            &&& forall|j: int| k <= j < r ==> selection_ok(searches[j], bots)
        }),
    decreases searches.len() - k,
{
    if k < searches.len() && selection_ok(searches[k], bots) {
        lemma_first_bad(searches, bots, k + 1);
    }
}

/// Resolve one order per episode, each out of its own search answer, in
/// order; the first episode whose selection fails is named with its
/// reason, and nothing after it is resolved.
pub fn find_packages(
    episodes: &Vec<u16>,
    searches: &Vec<Option<Vec<SearchHit>>>,
    bots: &Option<Vec<Bot>>,
) -> (r: Result<Vec<DCCPackage>, (u16, LocatorError)>)
    requires
        searches@.len() == episodes@.len(),
    ensures
        ({
            let bad = first_bad_from(searches@, *bots, 0);
            &&& (bad == searches@.len() ==> (r matches Ok(v) && v@.len() == searches@.len()
                && forall|i: int|
                    0 <= i < v@.len() ==> (#[trigger] v@[i]).number == selected_number(
                        searches@[i],
                    ) && v@[i].bot@ == selected_bot(searches@[i], *bots)))
            &&& (bad < searches@.len() ==> r == Err::<Vec<DCCPackage>, (u16, LocatorError)>(
                (episodes@[bad], selection_err(searches@[bad], *bots)),
            ))
        }),
{
    let mut out: Vec<DCCPackage> = Vec::new();
    let mut i: usize = 0;
    while i < searches.len()
        invariant
            0 <= i <= searches@.len() == episodes@.len(),
            out@.len() == i,
            forall|j: int| 0 <= j < i ==> selection_ok(searches@[j], *bots),
            forall|j: int|
                0 <= j < i ==> (#[trigger] out@[j]).number == selected_number(searches@[j])
                    && out@[j].bot@ == selected_bot(searches@[j], *bots),
        decreases searches@.len() - i,
    {
        match find_package(&searches[i], bots) {
            Ok(p) => {
                out.push(p);
            }
            Err(e) => {
                proof {
                    lemma_first_bad(searches@, *bots, 0);
                    let bad = first_bad_from(searches@, *bots, 0);
                    if bad < i as int {
                        assert(selection_ok(searches@[bad], *bots));
                    }
                    if (i as int) < bad {
                        assert(!selection_ok(searches@[i as int], *bots));
                    }
                }
                return Err((episodes[i], e));
            }
        }
        i += 1;
    }
    proof {
        lemma_first_bad(searches@, *bots, 0);
        let bad = first_bad_from(searches@, *bots, 0);
        if bad < searches@.len() {
            assert(selection_ok(searches@[bad], *bots));
        }
    }
    Ok(out)
}

} // verus!
