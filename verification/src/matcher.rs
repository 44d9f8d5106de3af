//! The matcher: scans the item pool against the current query, in one of two
//! modes (fuzzy subsequence matching, or a regular-expression filter), and
//! accumulates the qualifying items sorted by rank.

use vstd::prelude::*;
use crate::item::{Item, ItemPool, texts_of};
use crate::text::chars_to_string;

verus! {

/// How the filter query is applied to an item's text.
#[derive(Clone, Copy, PartialEq, Eq, Structural, Debug)]
pub enum MatcherMode {
    Fuzzy,
    Regex,
}

/// Whether the pattern is accepted by the regular-expression compiler;
/// a function of the pattern text alone.
pub uninterp spec fn regex_pattern_valid(pat: Seq<char>) -> bool;

/// Whether the compiled pattern matches somewhere in the text; a function of
/// the pattern and the text alone.
pub uninterp spec fn regex_match_of(pat: Seq<char>, text: Seq<char>) -> bool;

/// Relies on regex::Regex::new: whether a pattern compiles is a function of
/// the pattern text alone.
#[verifier::external_body]
pub(crate) fn regex_compiles(pattern: &str) -> (r: bool)
    ensures
        r == regex_pattern_valid(pattern@),
{
    regex::Regex::new(pattern).is_ok()
}

/// Relies on regex::Regex::is_match, reached through regex::Regex::new,
/// which succeeds by the precondition: whether the pattern matches the text
/// is a function of the two texts alone.
#[verifier::external_body]
fn regex_is_match(pattern: &str, text: &str) -> (r: bool)
    requires
        regex_pattern_valid(pattern@),
    ensures
        r == regex_match_of(pattern@, text@),
{
    match regex::Regex::new(pattern) {
        Ok(re) => re.is_match(text),
        Err(_) => false,
    }
}

/// The query matches the text when its characters appear in the text in
/// order, not necessarily adjacent.
pub open spec fn subseq_matches(q: Seq<char>, t: Seq<char>) -> bool
    decreases t.len(),
{
    if q.len() == 0 {
        true
    } else if t.len() == 0 {
        false
    } else if q[0] == t[0] {
        subseq_matches(q.skip(1), t.skip(1))
    } else {
        subseq_matches(q, t.skip(1))
    }
}

/// Position in the text of the first character consumed by the greedy
/// embedding of the query; meaningful when the query matches.
pub open spec fn match_start(q: Seq<char>, t: Seq<char>) -> int
    decreases t.len(),
{
    if q.len() == 0 {
        0
    } else if t.len() == 0 {
        0
    } else if q[0] == t[0] {
        0
    } else {
        1 + match_start(q, t.skip(1))
    }
}

/// Whether an item with text `t` qualifies under `mode` for query `q`.
pub open spec fn item_matches(mode: MatcherMode, q: Seq<char>, t: Seq<char>) -> bool {
    match mode {
        MatcherMode::Fuzzy => subseq_matches(q, t),
        MatcherMode::Regex => regex_pattern_valid(q) && regex_match_of(q, t),
    }
}

/// The rank of a qualifying item: lower is better. Fuzzy matches rank by how
/// early the query embeds; regex matches all rank alike.
pub open spec fn rank_of(mode: MatcherMode, q: Seq<char>, t: Seq<char>) -> int {
    match mode {
        MatcherMode::Fuzzy => match_start(q, t),
        MatcherMode::Regex => 0,
    }
}

/// Fuzzy-match `q` against `t`: `Some(start)` when `q` embeds in `t` in
/// order, where `start` is the position of the first embedded character.
pub fn fuzzy_match(q: &Vec<char>, t: &Vec<char>) -> (r: Option<usize>)
    ensures
        r is Some <==> subseq_matches(q@, t@),
        r is Some ==> r->0 == match_start(q@, t@),
{
    if q.len() == 0 {
        return Some(0);
    }
    let mut qi: usize = 0;
    let mut ti: usize = 0;
    let mut start: usize = 0;
    proof {
        assert(q@.skip(0) =~= q@);
        assert(t@.skip(0) =~= t@);
    }
    while ti < t.len() && qi < q.len()
        invariant
            qi <= q.len(),
            ti <= t.len(),
            q@.len() > 0,
            subseq_matches(q@, t@) == subseq_matches(q@.skip(qi as int), t@.skip(ti as int)),
            qi > 0 ==> match_start(q@, t@) == start,
            qi == 0 ==> match_start(q@, t@) == ti + match_start(q@, t@.skip(ti as int)),
        decreases t.len() - ti,
    {
        if q[qi] == t[ti] {
            proof {
                assert(q@.skip(qi as int)[0] == q@[qi as int]);
                assert(t@.skip(ti as int)[0] == t@[ti as int]);
                assert(q@.skip(qi as int).skip(1) =~= q@.skip(qi as int + 1));
                assert(t@.skip(ti as int).skip(1) =~= t@.skip(ti as int + 1));
                if qi == 0 {
                    assert(match_start(q@, t@.skip(ti as int)) == 0);
                }
            }
            if qi == 0 {
                start = ti;
            }
            qi = qi + 1;
            ti = ti + 1;
        } else {
            proof {
                assert(q@.skip(qi as int)[0] == q@[qi as int]);
                assert(t@.skip(ti as int)[0] == t@[ti as int]);
                assert(t@.skip(ti as int).skip(1) =~= t@.skip(ti as int + 1));
            }
            ti = ti + 1;
        }
    }
    if qi == q.len() {
        proof {
            assert(q@.skip(qi as int).len() == 0);
            assert(subseq_matches(q@.skip(qi as int), t@.skip(ti as int)));
        }
        Some(start)
    } else {
        proof {
            assert(ti == t.len());
            assert(t@.skip(ti as int).len() == 0);
            assert(q@.skip(qi as int).len() > 0);
            assert(!subseq_matches(q@.skip(qi as int), t@.skip(ti as int)));
        }
        None
    }
}

/// One qualifying item, together with its rank and its pool index.
pub struct MatchedItem {
    pub item: Item,
    pub rank: usize,
    pub idx: usize,
}

/// Order on matched items: by rank, ties by pool (insertion) index.
pub open spec fn key_le(a: MatchedItem, b: MatchedItem) -> bool {
    a.rank < b.rank || (a.rank == b.rank && a.idx <= b.idx)
}

/// Sorted by rank, stable on ties by insertion index.
pub open spec fn sorted_matches(s: Seq<MatchedItem>) -> bool {
    forall|i: int, j: int| 0 <= i < j < s.len() ==> key_le(s[i], s[j])
}

fn key_le_exec(a: &MatchedItem, b: &MatchedItem) -> (r: bool)
    ensures
        r == key_le(*a, *b),
{
    a.rank < b.rank || (a.rank == b.rank && a.idx <= b.idx)
}

/// Insert `x` into a rank-sorted vector, keeping it sorted; later among
/// equals, which keeps insertion order stable.
pub fn insert_sorted(v: &mut Vec<MatchedItem>, x: MatchedItem)
    requires
        sorted_matches(old(v)@),
    ensures
        sorted_matches(final(v)@),
        final(v)@.len() == old(v)@.len() + 1,
        forall|e: MatchedItem| #[trigger] final(v)@.contains(e) <==> (old(v)@.contains(e) || e == x),
        exists|p: int| 0 <= p <= old(v)@.len() && final(v)@ == old(v)@.insert(p, x),
{
    let mut p: usize = 0;
    while p < v.len() && key_le_exec(&v[p], &x)
        invariant
            p <= v.len(),
            sorted_matches(v@),
            forall|k: int| 0 <= k < p ==> key_le(v@[k], x),
        decreases v.len() - p,
    {
        p = p + 1;
    }
    let ghost oldv = v@;
    let ghost pos = p as int;
    v.insert(p, x);
    proof {
        oldv.insert_ensures(pos, x);
        assert(v@ == oldv.insert(pos, x));
        assert(0 <= pos <= oldv.len() && v@ == oldv.insert(pos, x));
        assert forall|i: int, j: int| 0 <= i < j < v@.len() implies key_le(v@[i], v@[j]) by {
            if j < pos {
                assert(v@[i] == oldv[i] && v@[j] == oldv[j]);
            } else if j == pos {
                assert(v@[j] == x);
                assert(i < pos);
                assert(v@[i] == oldv[i]);
            } else {
                assert(v@[j] == oldv[j - 1]);
                if i < pos {
                    assert(v@[i] == oldv[i]);
                    if pos < oldv.len() {
                        assert(!key_le(oldv[pos], x));
                    }
                    assert(key_le(oldv[i], oldv[j - 1]) || i == j - 1);
                } else if i == pos {
                    assert(v@[i] == x);
                    assert(!key_le(oldv[pos], x));
                    assert(key_le(x, oldv[pos]));
                    assert(pos <= j - 1 < oldv.len());
                    assert(pos == j - 1 || key_le(oldv[pos], oldv[j - 1]));
                } else {
                    assert(v@[i] == oldv[i - 1]);
                }
            }
        };
        assert forall|e: MatchedItem| #[trigger] v@.contains(e) <==> (oldv.contains(e) || e == x) by {
            if v@.contains(e) {
                let i = choose|i: int| 0 <= i < v@.len() && v@[i] == e;
                if i < pos {
                    assert(oldv[i] == e);
                    assert(oldv.contains(e));
                } else if i == pos {
                    assert(e == x);
                } else {
                    assert(oldv[i - 1] == e);
                    assert(oldv.contains(e));
                }
            }
            if oldv.contains(e) {
                let i = choose|i: int| 0 <= i < oldv.len() && oldv[i] == e;
                if i < pos {
                    assert(v@[i] == e);
                } else {
                    assert(v@[i + 1] == e);
                }
                assert(v@.contains(e));
            }
            if e == x {
                assert(v@[pos] == e);
                assert(v@.contains(e));
            }
        };
    }
}

/// What a correct matcher run over pool positions `lo..hi` yields for query
/// `q` under `mode`: exactly the qualifying items, each with its rank and
/// index, sorted, one entry per position.
pub open spec fn matched_ok(
    out: Seq<MatchedItem>,
    pool: Seq<Seq<char>>,
    lo: int,
    hi: int,
    mode: MatcherMode,
    q: Seq<char>,
) -> bool {
    &&& sorted_matches(out)
    &&& forall|j: int| 0 <= j < out.len() ==> {
        &&& lo <= #[trigger] out[j].idx < hi
        &&& out[j].item@ == pool[out[j].idx as int]
        &&& item_matches(mode, q, pool[out[j].idx as int])
        &&& out[j].rank == rank_of(mode, q, pool[out[j].idx as int])
    }
    &&& forall|idx: int|
        lo <= idx < hi && item_matches(mode, q, #[trigger] pool[idx]) ==> exists|j: int|
            0 <= j < out.len() && #[trigger] out[j].idx == idx
    &&& forall|j1: int, j2: int| 0 <= j1 < j2 < out.len() ==> out[j1].idx != out[j2].idx
}

/// Handle to one matcher run. The run here completes eagerly, so a fresh
/// control is already stopped; the model still polls it at the next
/// heartbeat, which keeps the restart protocol of the event loop.
pub struct MatcherControl {
    pub matched: Vec<MatchedItem>,
    pub stopped: bool,
    pub killed: bool,
    pub num_matched: usize,
    pub num_processed: usize,
}

/// The state a control reaches when killed: only the kill mark changes.
pub open spec fn matcher_killed(c: MatcherControl) -> MatcherControl {
    MatcherControl { killed: true, ..c }
}

impl MatcherControl {
    /// True once all items available at launch have been scored.
    pub fn stopped(&self) -> (r: bool)
        ensures
            r == self.stopped,
    {
        self.stopped
    }

    /// Signal cancellation. Killing an already-killed control changes
    /// nothing.
    pub fn kill(&mut self)
        ensures
            *final(self) == matcher_killed(*old(self)),
    {
        self.killed = true;
    }

    /// Consume the handle and yield the accumulated sorted matches.
    pub fn into_items(self) -> (r: Vec<MatchedItem>)
        ensures
            r@ == self.matched@,
    {
        self.matched
    }

    pub fn get_num_matched(&self) -> (r: usize)
        ensures
            r == self.num_matched,
    {
        self.num_matched
    }

    pub fn get_num_processed(&self) -> (r: usize)
        ensures
            r == self.num_processed,
    {
        self.num_processed
    }
}

/// Killing a control twice is the same as killing it once.
pub proof fn lemma_kill_idempotent(c: MatcherControl)
    ensures
        matcher_killed(matcher_killed(c)) == matcher_killed(c),
{
}

/// Run the matcher: score the pool's unseen tail (from its takeable cursor)
/// against `query` under `mode`, and return a stopped control holding the
/// qualifying items sorted by rank.
pub fn run_matcher(query: &Vec<char>, pool: &mut ItemPool, mode: MatcherMode) -> (r: MatcherControl)
    requires
        old(pool).wf(),
    ensures
        final(pool).wf(),
        final(pool)@ == old(pool)@,
        final(pool).spec_cursor() == old(pool)@.len(),
        matched_ok(
            r.matched@,
            old(pool)@,
            old(pool).spec_cursor(),
            old(pool)@.len() as int,
            mode,
            query@,
        ),
        r.stopped,
        !r.killed,
        r.num_matched == r.matched@.len(),
        r.num_processed == old(pool)@.len() - old(pool).spec_cursor(),
{
    let ghost lo = pool.spec_cursor();
    let ghost pool_view = pool@;
    let items = pool.take();
    let n = items.len();
    let query_str = chars_to_string(query);
    let regex_ok = match mode {
        MatcherMode::Fuzzy => false,
        MatcherMode::Regex => regex_compiles(query_str.as_str()),
    };
    let mut matched: Vec<MatchedItem> = Vec::new();
    let mut k: usize = 0;
    proof {
        assert(texts_of(items@).len() == items@.len());
    }
    while k < n
        invariant
            n == items.len(),
            texts_of(items@) == pool_view.subrange(lo, pool_view.len() as int),
            lo + n == pool_view.len(),
            0 <= lo,
            k <= n,
            pool.wf(),
            pool@ == pool_view,
            pool.spec_cursor() == pool_view.len(),
            mode == MatcherMode::Regex ==> regex_ok == regex_pattern_valid(query@),
            query_str@ == query@,
            sorted_matches(matched@),
            forall|j: int| 0 <= j < matched@.len() ==> {
                &&& lo <= #[trigger] matched@[j].idx < lo + k
                &&& matched@[j].item@ == pool_view[matched@[j].idx as int]
                &&& item_matches(mode, query@, pool_view[matched@[j].idx as int])
                &&& matched@[j].rank == rank_of(mode, query@, pool_view[matched@[j].idx as int])
            },
            forall|idx: int|
                lo <= idx < lo + k && item_matches(mode, query@, #[trigger] pool_view[idx])
                    ==> exists|j: int| 0 <= j < matched@.len() && #[trigger] matched@[j].idx == idx,
            forall|j1: int, j2: int|
                0 <= j1 < j2 < matched@.len() ==> matched@[j1].idx != matched@[j2].idx,
            forall|j: int| 0 <= j < matched@.len() ==> #[trigger] matched@[j].idx < lo + k,
        decreases n - k,
    {
        proof {
            assert(items@[k as int]@ == texts_of(items@)[k as int]);
            assert(pool_view[lo + k] == texts_of(items@)[k as int]);
        }
        let it = &items[k];
        let rank_found: Option<usize> = match mode {
            MatcherMode::Fuzzy => fuzzy_match(query, &it.text),
            MatcherMode::Regex => {
                if regex_ok {
                    let text_str = chars_to_string(&it.text);
                    if regex_is_match(query_str.as_str(), text_str.as_str()) {
                        Some(0)
                    } else {
                        None
                    }
                } else {
                    None
                }
            },
        };
        let ghost prev = matched@;
        match rank_found {
            Some(rank) => {
                let idx = pool.len() - n + k;
                proof {
                    assert(idx == lo + k);
                }
                let mi = MatchedItem { item: it.clone(), rank, idx };
                proof {
                    assert(mi.item@ == pool_view[lo + k]);
                    assert(item_matches(mode, query@, pool_view[lo + k]));
                    assert(mi.rank == rank_of(mode, query@, pool_view[lo + k]));
                }
                insert_sorted(&mut matched, mi);
                proof {
                    let p = choose|p: int| 0 <= p <= prev.len() && matched@ == prev.insert(p, mi);
                    prev.insert_ensures(p, mi);
                    assert forall|j: int| 0 <= j < matched@.len() implies {
                        &&& lo <= #[trigger] matched@[j].idx < lo + k + 1
                        &&& matched@[j].item@ == pool_view[matched@[j].idx as int]
                        &&& item_matches(mode, query@, pool_view[matched@[j].idx as int])
                        &&& matched@[j].rank == rank_of(mode, query@, pool_view[matched@[j].idx as int])
                    } by {
                        if j < p {
                            assert(matched@[j] == prev[j]);
                        } else if j == p {
                            assert(matched@[j] == mi);
                        } else {
                            assert(matched@[(j - 1) + 1] == prev[j - 1]);
                        }
                    };
                    assert forall|idx2: int|
                        lo <= idx2 < lo + k + 1 && item_matches(mode, query@, #[trigger] pool_view[idx2])
                            implies exists|j: int|
                            0 <= j < matched@.len() && #[trigger] matched@[j].idx == idx2 by {
                        if idx2 == lo + k {
                            assert(matched@[p] == mi);
                            assert(matched@[p].idx == idx2);
                        } else {
                            let j0 = choose|j: int|
                                0 <= j < prev.len() && #[trigger] prev[j].idx == idx2;
                            if j0 < p {
                                assert(matched@[j0] == prev[j0]);
                                assert(matched@[j0].idx == idx2);
                            } else {
                                assert(matched@[j0 + 1] == prev[j0]);
                                assert(matched@[j0 + 1].idx == idx2);
                            }
                        }
                    };
                    assert forall|j1: int, j2: int| 0 <= j1 < j2 < matched@.len() implies
                        matched@[j1].idx != matched@[j2].idx by {
                        let a1: int = if j1 < p { j1 } else { j1 - 1 };
                        let a2: int = if j2 < p { j2 } else { j2 - 1 };
                        if j1 != p && j2 != p {
                            assert(j1 < p ==> matched@[j1] == prev[j1]);
                            assert(j1 > p ==> matched@[(j1 - 1) + 1] == prev[j1 - 1]);
                            assert(j2 < p ==> matched@[j2] == prev[j2]);
                            assert(j2 > p ==> matched@[(j2 - 1) + 1] == prev[j2 - 1]);
                            assert(matched@[j1].idx == prev[a1].idx);
                            assert(matched@[j2].idx == prev[a2].idx);
                            assert(a1 != a2);
                        } else if j1 == p {
                            assert(matched@[j1] == mi);
                            assert(matched@[(j2 - 1) + 1] == prev[j2 - 1]);
                            assert(prev[j2 - 1].idx < lo + k);
                        } else {
                            assert(matched@[j2] == mi);
                            assert(j1 < p ==> matched@[j1] == prev[j1]);
                            assert(matched@[j1].idx == prev[j1].idx);
                            assert(prev[j1].idx < lo + k);
                        }
                    };
                }
            },
            None => {
                proof {
                    assert(!item_matches(mode, query@, pool_view[lo + k]));
                }
            },
        }
        k = k + 1;
    }
    let num_matched = matched.len();
    MatcherControl { matched, stopped: true, killed: false, num_matched, num_processed: n }
}

} // verus!
