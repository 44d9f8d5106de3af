//! The selection: the ordered list of matched items, a cursor over it, and
//! the set of explicitly chosen items under multi-select.

use vstd::prelude::*;
use crate::event::Event;
use crate::item::{Item, texts_of};
use crate::matcher::{MatchedItem, sorted_matches, insert_sorted};

verus! {

/// Some entry of `s` carries pool index `idx`.
pub open spec fn has_idx(s: Seq<MatchedItem>, idx: int) -> bool {
    exists|j: int| 0 <= j < s.len() && #[trigger] s[j].idx == idx
}

/// No two entries of `s` carry the same pool index.
pub open spec fn distinct_idxs(s: Seq<MatchedItem>) -> bool {
    forall|j1: int, j2: int| 0 <= j1 < j2 < s.len() ==> s[j1].idx != s[j2].idx
}

proof fn lemma_contains_push(s: Seq<MatchedItem>, x: MatchedItem, e: MatchedItem)
    ensures
        s.push(x).contains(e) <==> (s.contains(e) || e == x),
{
    if s.push(x).contains(e) {
        let i = choose|i: int| 0 <= i < s.push(x).len() && s.push(x)[i] == e;
        if i < s.len() {
            assert(s[i] == e);
        }
    }
    if s.contains(e) {
        let i = choose|i: int| 0 <= i < s.len() && s[i] == e;
        assert(s.push(x)[i] == e);
    }
    if e == x {
        assert(s.push(x)[s.len() as int] == e);
    }
}

pub struct Selection {
    pub items: Vec<MatchedItem>,
    pub cursor: usize,
    pub chosen: Vec<MatchedItem>,
    pub multi: bool,
}

impl Selection {
    pub open spec fn wf(self) -> bool {
        &&& sorted_matches(self.items@)
        &&& (self.items@.len() == 0 ==> self.cursor == 0)
        &&& (self.items@.len() > 0 ==> self.cursor < self.items@.len())
        &&& distinct_idxs(self.chosen@)
    }

    /// The texts an accept would emit: the explicitly chosen items under
    /// multi-select, else the item under the cursor, else nothing.
    pub open spec fn spec_selected_texts(self) -> Seq<Seq<char>> {
        if self.multi && self.chosen@.len() > 0 {
            self.chosen@.map_values(|e: MatchedItem| e.item@)
        } else if self.items@.len() > 0 {
            seq![self.items@[self.cursor as int].item@]
        } else {
            Seq::<Seq<char>>::empty()
        }
    }

    pub fn new(multi: bool) -> (r: Selection)
        ensures
            r.wf(),
            r.items@.len() == 0,
            r.chosen@.len() == 0,
            r.cursor == 0,
            r.multi == multi,
    {
        Selection { items: Vec::new(), cursor: 0, chosen: Vec::new(), multi }
    }

    /// Drop matches and explicit choices; configuration (multi-select)
    /// survives.
    pub fn clear(&mut self)
        ensures
            final(self).wf(),
            final(self).items@.len() == 0,
            final(self).chosen@.len() == 0,
            final(self).cursor == 0,
            final(self).multi == old(self).multi,
    {
        self.items = Vec::new();
        self.chosen = Vec::new();
        self.cursor = 0;
    }

    /// Merge a matcher batch into the sorted match list. The cursor and the
    /// chosen set are untouched; the list stays sorted and afterwards holds
    /// exactly the old entries and the batch.
    pub fn append_sorted_items(&mut self, batch: Vec<MatchedItem>)
        requires
            old(self).wf(),
        ensures
            final(self).wf(),
            final(self).items@.len() == old(self).items@.len() + batch@.len(),
            forall|e: MatchedItem|
                #[trigger] final(self).items@.contains(e)
                    <==> (old(self).items@.contains(e) || batch@.contains(e)),
            final(self).cursor == old(self).cursor,
            final(self).chosen@ == old(self).chosen@,
            final(self).multi == old(self).multi,
    {
        let ghost orig = batch@;
        let ghost old_items = self.items@;
        let mut rest = batch;
        let ghost mut j: int = 0;
        while rest.len() > 0
            invariant
                self.wf(),
                0 <= j <= orig.len(),
                rest@ =~= orig.subrange(j, orig.len() as int),
                self.items@.len() == old_items.len() + j,
                forall|e: MatchedItem|
                    #[trigger] self.items@.contains(e)
                        <==> (old_items.contains(e) || orig.subrange(0, j).contains(e)),
                self.cursor == old(self).cursor,
                self.chosen@ == old(self).chosen@,
                self.multi == old(self).multi,
                old(self).cursor == self.cursor,
                (self.items@.len() == 0 ==> self.cursor == 0),
                (old_items.len() == 0 ==> self.cursor == 0),
                (old_items.len() > 0 ==> self.cursor < old_items.len()),
            decreases rest.len(),
        {
            let x = rest.remove(0);
            proof {
                assert(x == orig[j]);
            }
            let ghost prev = self.items@;
            insert_sorted(&mut self.items, x);
            proof {
                assert forall|e: MatchedItem|
                    #[trigger] self.items@.contains(e)
                        <==> (old_items.contains(e) || orig.subrange(0, j + 1).contains(e)) by {
                    assert(orig.subrange(0, j + 1) =~= orig.subrange(0, j).push(orig[j]));
                    lemma_contains_push(orig.subrange(0, j), orig[j], e);
                };
                assert(rest@ =~= orig.subrange(j + 1, orig.len() as int));
                j = j + 1;
            }
        }
        proof {
            assert(orig.subrange(0, orig.len() as int) =~= orig);
            assert(forall|e: MatchedItem|
                #[trigger] self.items@.contains(e)
                    <==> (old_items.contains(e) || orig.contains(e)));
        }
    }

    pub fn num_options(&self) -> (r: usize)
        ensures
            r == self.items@.len(),
    {
        self.items.len()
    }

    pub fn is_multi_selection(&self) -> (r: bool)
        ensures
            r == self.multi,
    {
        self.multi
    }

    pub fn get_num_selected(&self) -> (r: usize)
        ensures
            r == self.chosen@.len(),
    {
        self.chosen.len()
    }

    pub fn get_current_item_idx(&self) -> (r: usize)
        ensures
            r == self.cursor,
    {
        self.cursor
    }

    /// The item under the cursor, if the match list is not empty.
    pub fn get_current_item(&self) -> (r: Option<Item>)
        requires
            self.wf(),
        ensures
            r is Some <==> self.items@.len() > 0,
            r is Some ==> (r->0)@ == self.items@[self.cursor as int].item@,
    {
        if self.items.len() > 0 {
            Some(self.items[self.cursor].item.clone())
        } else {
            None
        }
    }

    /// The texts an accept would emit right now.
    pub fn get_selected_items(&self) -> (r: Vec<Item>)
        requires
            self.wf(),
        ensures
            texts_of(r@) == self.spec_selected_texts(),
    {
        let mut out: Vec<Item> = Vec::new();
        if self.multi && self.chosen.len() > 0 {
            let mut k: usize = 0;
            while k < self.chosen.len()
                invariant
                    k <= self.chosen@.len(),
                    texts_of(out@) == self.chosen@.map_values(|e: MatchedItem| e.item@)
                        .subrange(0, k as int),
                decreases self.chosen@.len() - k,
            {
                let it = self.chosen[k].item.clone();
                let ghost prev = out@;
                out.push(it);
                proof {
                    assert(texts_of(prev.push(it)) =~= texts_of(prev).push(it@));
                    let m = self.chosen@.map_values(|e: MatchedItem| e.item@);
                    assert(m.subrange(0, k + 1 as int) =~= m.subrange(0, k as int).push(m[k as int]));
                }
                k = k + 1;
            }
            proof {
                let m = self.chosen@.map_values(|e: MatchedItem| e.item@);
                assert(m.subrange(0, m.len() as int) =~= m);
            }
        } else if self.items.len() > 0 {
            out.push(self.items[self.cursor].item.clone());
            proof {
                assert(texts_of(out@) =~= self.spec_selected_texts());
            }
        } else {
            proof {
                assert(texts_of(out@) =~= self.spec_selected_texts());
            }
        }
        out
    }

    /// Whether the selection claims this event.
    pub fn accept_event(&self, ev: &Event) -> (r: bool)
        ensures
            r == sel_accepts(*ev),
    {
        match ev {
            Event::CursorUp => true,
            Event::CursorDown => true,
            Event::ToggleSelect => true,
            _ => false,
        }
    }

    /// Move the cursor one row up (towards the best match).
    pub fn act_cursor_up(&mut self)
        requires
            old(self).wf(),
        ensures
            final(self).wf(),
            final(self).cursor == (if old(self).cursor > 0 { old(self).cursor - 1 } else { 0 }),
            final(self).items@ == old(self).items@,
            final(self).chosen@ == old(self).chosen@,
            final(self).multi == old(self).multi,
    {
        if self.cursor > 0 {
            self.cursor = self.cursor - 1;
        }
    }

    /// Move the cursor one row down, stopping at the last match.
    pub fn act_cursor_down(&mut self)
        requires
            old(self).wf(),
        ensures
            final(self).wf(),
            final(self).cursor == (if old(self).cursor + 1 < old(self).items@.len() {
                old(self).cursor + 1int
            } else {
                old(self).cursor as int
            }),
            final(self).items@ == old(self).items@,
            final(self).chosen@ == old(self).chosen@,
            final(self).multi == old(self).multi,
    {
        let n = self.items.len();
        if n > 0 && self.cursor < n - 1 {
            self.cursor = self.cursor + 1;
        }
    }

    /// Under multi-select, toggle whether the item under the cursor is
    /// chosen: afterwards it is chosen exactly if it was not before.
    pub fn act_toggle_select(&mut self)
        requires
            old(self).wf(),
        ensures
            final(self).wf(),
            final(self).items@ == old(self).items@,
            final(self).cursor == old(self).cursor,
            final(self).multi == old(self).multi,
            (!old(self).multi || old(self).items@.len() == 0) ==> *final(self) == *old(self),
            (old(self).multi && old(self).items@.len() > 0) ==> {
                let cur = old(self).items@[old(self).cursor as int].idx as int;
                &&& has_idx(final(self).chosen@, cur) <==> !has_idx(old(self).chosen@, cur)
                &&& (!has_idx(old(self).chosen@, cur) ==> {
                    &&& final(self).chosen@.len() == old(self).chosen@.len() + 1
                    &&& final(self).chosen@.subrange(0, old(self).chosen@.len() as int)
                        == old(self).chosen@
                    &&& final(self).chosen@.last().idx as int == cur
                    &&& final(self).chosen@.last().item@
                        == old(self).items@[old(self).cursor as int].item@
                })
                &&& (has_idx(old(self).chosen@, cur)
                    ==> final(self).chosen@.len() == old(self).chosen@.len() - 1)
            },
    {
        if !self.multi || self.items.len() == 0 {
            return;
        }
        let cur_idx = self.items[self.cursor].idx;
        let ghost old_chosen = self.chosen@;
        let mut k: usize = 0;
        while k < self.chosen.len()
            invariant
                self.wf(),
                k <= self.chosen@.len(),
                self.chosen@ == old_chosen,
                old_chosen == old(self).chosen@,
                self.items@ == old(self).items@,
                self.cursor == old(self).cursor,
                self.multi == old(self).multi,
                self.multi,
                self.items@.len() > 0,
                self.cursor < self.items@.len(),
                cur_idx == old(self).items@[old(self).cursor as int].idx,
                forall|j: int| 0 <= j < k ==> old_chosen[j].idx != cur_idx,
            decreases self.chosen@.len() - k,
        {
            if self.chosen[k].idx == cur_idx {
                let ghost p = k as int;
                self.chosen.remove(k);
                proof {
                    old_chosen.remove_ensures(p);
                    assert(self.chosen@ == old_chosen.remove(p));
                    assert forall|j1: int, j2: int| 0 <= j1 < j2 < self.chosen@.len() implies
                        self.chosen@[j1].idx != self.chosen@[j2].idx by {
                        let b1: int = if j1 < p { j1 } else { j1 + 1 };
                        let b2: int = if j2 < p { j2 } else { j2 + 1 };
                        assert(self.chosen@[j1] == old_chosen[b1]);
                        assert(self.chosen@[j2] == old_chosen[b2]);
                    };
                    assert(!has_idx(self.chosen@, cur_idx as int)) by {
                        if has_idx(self.chosen@, cur_idx as int) {
                            let j = choose|j: int|
                                0 <= j < self.chosen@.len()
                                    && #[trigger] self.chosen@[j].idx == cur_idx as int;
                            let b: int = if j < p { j } else { j + 1 };
                            assert(old_chosen[b].idx == cur_idx);
                            assert(old_chosen[p].idx == cur_idx);
                        }
                    };
                    assert(has_idx(old_chosen, cur_idx as int)) by {
                        assert(old_chosen[p].idx == cur_idx as int);
                    };
                }
                return;
            }
            k = k + 1;
        }
        proof {
            assert(!has_idx(old_chosen, cur_idx as int));
        }
        let picked = MatchedItem {
            item: self.items[self.cursor].item.clone(),
            rank: self.items[self.cursor].rank,
            idx: cur_idx,
        };
        let ghost prev = self.chosen@;
        self.chosen.push(picked);
        proof {
            assert(self.chosen@ == prev.push(picked));
            assert(self.chosen@.last() == picked);
            assert(self.chosen@.subrange(0, prev.len() as int) =~= prev);
            assert forall|j1: int, j2: int| 0 <= j1 < j2 < self.chosen@.len() implies
                self.chosen@[j1].idx != self.chosen@[j2].idx by {
                if j2 < prev.len() {
                } else {
                    assert(self.chosen@[j2] == picked);
                    assert(self.chosen@[j1] == prev[j1]);
                }
            };
            assert(has_idx(self.chosen@, cur_idx as int)) by {
                assert(self.chosen@[prev.len() as int].idx == cur_idx as int);
            };
        }
    }

    /// Route a claimed event to the matching action.
    pub fn handle(&mut self, ev: &Event)
        requires
            old(self).wf(),
            sel_accepts(*ev),
        ensures
            final(self).wf(),
            *ev matches Event::CursorUp ==> final(self).cursor == (
                if old(self).cursor > 0 { old(self).cursor - 1 } else { 0 }
            ) && final(self).items@ == old(self).items@
                && final(self).chosen@ == old(self).chosen@
                && final(self).multi == old(self).multi,
            *ev matches Event::CursorDown ==> final(self).cursor == (
                if old(self).cursor + 1 < old(self).items@.len() {
                    old(self).cursor + 1int
                } else {
                    old(self).cursor as int
                }
            ) && final(self).items@ == old(self).items@
                && final(self).chosen@ == old(self).chosen@
                && final(self).multi == old(self).multi,
            *ev matches Event::ToggleSelect ==> final(self).items@ == old(self).items@
                && final(self).cursor == old(self).cursor as int
                && final(self).multi == old(self).multi,
    {
        match ev {
            Event::CursorUp => self.act_cursor_up(),
            Event::CursorDown => self.act_cursor_down(),
            Event::ToggleSelect => self.act_toggle_select(),
            _ => {},
        }
    }
}

/// The selection claims the cursor and toggle events.
pub open spec fn sel_accepts(ev: Event) -> bool {
    match ev {
        Event::CursorUp => true,
        Event::CursorDown => true,
        Event::ToggleSelect => true,
        _ => false,
    }
}

} // verus!
