//! Candidate items and the append-only pool they are staged in.

use vstd::prelude::*;

verus! {

/// One candidate record: a line of text, stored as its characters.
pub struct Item {
    pub text: Vec<char>,
}

/// The display texts of a run of items, in order.
pub open spec fn texts_of(s: Seq<Item>) -> Seq<Seq<char>> {
    s.map_values(|it: Item| it@)
}

/// Copy a character vector element by element.
pub fn clone_chars(v: &Vec<char>) -> (r: Vec<char>)
    ensures
        r@ == v@,
{
    let mut out: Vec<char> = Vec::new();
    let mut i: usize = 0;
    while i < v.len()
        invariant
            i <= v.len(),
            out@ == v@.subrange(0, i as int),
        decreases v.len() - i,
    {
        out.push(v[i]);
        proof {
            assert(v@.subrange(0, i + 1 as int) =~= v@.subrange(0, i as int).push(v@[i as int]));
        }
        i = i + 1;
    }
    proof {
        assert(out@ =~= v@);
    }
    out
}

impl Item {
    /// The characters of the item's display text.
    pub open spec fn view(self) -> Seq<char> {
        self.text@
    }

    pub fn new(text: Vec<char>) -> (r: Item)
        ensures
            r@ == text@,
    {
        Item { text }
    }
}

impl Clone for Item {
    fn clone(&self) -> (r: Self)
        ensures
            r@ == self@,
    {
        Item { text: clone_chars(&self.text) }
    }
}

/// Append-only buffer of ingested items with a takeable cursor: the matcher
/// resumes from the cursor, and items are only ever dropped by `clear`.
pub struct ItemPool {
    pub items: Vec<Item>,
    pub cursor: usize,
}

impl ItemPool {
    /// The texts ingested since the last `clear`, in arrival order.
    pub open spec fn view(self) -> Seq<Seq<char>> {
        texts_of(self.items@)
    }

    /// Index of the first item the next matcher run has not seen yet.
    pub open spec fn spec_cursor(self) -> int {
        self.cursor as int
    }

    pub open spec fn wf(self) -> bool {
        self.cursor <= self.items.len()
    }

    pub fn new() -> (r: ItemPool)
        ensures
            r.wf(),
            r@ =~= Seq::<Seq<char>>::empty(),
            r.spec_cursor() == 0,
    {
        ItemPool { items: Vec::new(), cursor: 0 }
    }

    pub fn len(&self) -> (r: usize)
        ensures
            r == self@.len(),
    {
        self.items.len()
    }

    /// Extend the pool; existing items and the cursor are untouched, so the
    /// pool never shrinks except through `clear`.
    pub fn append(&mut self, batch: &mut Vec<Item>)
        requires
            old(self).wf(),
        ensures
            final(self).wf(),
            final(self)@ == old(self)@ + texts_of(old(batch)@),
            final(self).spec_cursor() == old(self).spec_cursor(),
            final(batch)@ =~= Seq::<Item>::empty(),
    {
        let ghost old_items = self.items@;
        let ghost batch0 = batch@;
        self.items.append(batch);
        proof {
            assert(texts_of(old_items + batch0) =~= texts_of(old_items) + texts_of(batch0));
        }
    }

    /// Move the takeable cursor back to the start without dropping items:
    /// the next `take` re-examines everything.
    pub fn reset(&mut self)
        requires
            old(self).wf(),
        ensures
            final(self).wf(),
            final(self)@ == old(self)@,
            final(self).spec_cursor() == 0,
    {
        self.cursor = 0;
    }

    /// Drop all items and reset the cursor.
    pub fn clear(&mut self)
        ensures
            final(self).wf(),
            final(self)@ =~= Seq::<Seq<char>>::empty(),
            final(self).spec_cursor() == 0,
    {
        self.items = Vec::new();
        self.cursor = 0;
    }

    /// The unseen tail: copies of the items from the cursor to the end; the
    /// cursor advances past them.
    pub fn take(&mut self) -> (r: Vec<Item>)
        requires
            old(self).wf(),
        ensures
            final(self).wf(),
            final(self)@ == old(self)@,
            final(self).spec_cursor() == old(self)@.len(),
            texts_of(r@) == old(self)@.subrange(old(self).spec_cursor(), old(self)@.len() as int),
    {
        let mut out: Vec<Item> = Vec::new();
        let mut i: usize = self.cursor;
        while i < self.items.len()
            invariant
                self.wf(),
                self.cursor <= i <= self.items.len(),
                texts_of(out@) == self@.subrange(self.spec_cursor(), i as int),
        decreases self.items.len() - i,
        {
            let it = self.items[i].clone();
            let ghost prev = out@;
            out.push(it);
            proof {
                assert(texts_of(prev.push(it)) =~= texts_of(prev).push(it@));
                assert(self@.subrange(self.spec_cursor(), i + 1 as int)
                    =~= self@.subrange(self.spec_cursor(), i as int).push(self@[i as int]));
            }
            i = i + 1;
        }
        self.cursor = self.items.len();
        out
    }
}

} // verus!
