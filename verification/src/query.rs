//! The query component: the filter query (matched against items) and the
//! command query (interpolated into the reader command template), both
//! editable per keystroke.

use vstd::prelude::*;
use crate::event::Event;
use crate::item::clone_chars;

verus! {

/// The reader command with every `{}` placeholder of the template replaced
/// by the command query.
pub open spec fn interpolate(t: Seq<char>, q: Seq<char>) -> Seq<char>
    decreases t.len(),
{
    if t.len() == 0 {
        Seq::<char>::empty()
    } else if t.len() >= 2 && t[0] == '{' && t[1] == '}' {
        q + interpolate(t.skip(2), q)
    } else {
        seq![t[0]] + interpolate(t.skip(1), q)
    }
}

/// The query claims the editing events.
pub open spec fn query_accepts(ev: Event) -> bool {
    match ev {
        Event::AddChar(_) => true,
        Event::DeleteChar => true,
        Event::DeleteCharEOF => true,
        Event::AddCharCmd(_) => true,
        Event::DeleteCharCmd => true,
        _ => false,
    }
}

pub struct Query {
    pub base_cmd: Vec<char>,
    pub fquery: Vec<char>,
    pub cmd_query: Vec<char>,
}

impl Query {
    pub fn new(base_cmd: Vec<char>, init_query: Vec<char>, init_cmd_query: Vec<char>) -> (r: Query)
        ensures
            r.base_cmd@ == base_cmd@,
            r.fquery@ == init_query@,
            r.cmd_query@ == init_cmd_query@,
    {
        Query { base_cmd, fquery: init_query, cmd_query: init_cmd_query }
    }

    /// The current filter query.
    pub fn get_query(&self) -> (r: Vec<char>)
        ensures
            r@ == self.fquery@,
    {
        clone_chars(&self.fquery)
    }

    /// The current command query.
    pub fn get_cmd_query(&self) -> (r: Vec<char>)
        ensures
            r@ == self.cmd_query@,
    {
        clone_chars(&self.cmd_query)
    }

    /// The reader command: the template with the command query interpolated.
    pub fn get_cmd(&self) -> (r: Vec<char>)
        ensures
            r@ == interpolate(self.base_cmd@, self.cmd_query@),
    {
        let t = &self.base_cmd;
        let q = &self.cmd_query;
        let mut out: Vec<char> = Vec::new();
        let mut i: usize = 0;
        proof {
            assert(t@.skip(0) =~= t@);
        }
        while i < t.len()
            invariant
                i <= t.len(),
                out@ + interpolate(t@.skip(i as int), q@) == interpolate(t@, q@),
            decreases t.len() - i,
        {
            let ghost tail = t@.skip(i as int);
            if i + 1 < t.len() && t[i] == '{' && t[i + 1] == '}' {
                proof {
                    assert(tail.len() >= 2);
                    assert(tail[0] == t@[i as int]);
                    assert(tail[1] == t@[i as int + 1]);
                    assert(tail.skip(2) =~= t@.skip(i as int + 2));
                    assert(interpolate(tail, q@) == q@ + interpolate(t@.skip(i as int + 2), q@));
                }
                let ghost before = out@;
                let mut k: usize = 0;
                while k < q.len()
                    invariant
                        k <= q.len(),
                        out@ == before + q@.subrange(0, k as int),
                    decreases q.len() - k,
                {
                    out.push(q[k]);
                    proof {
                        assert(before + q@.subrange(0, k as int + 1)
                            =~= (before + q@.subrange(0, k as int)).push(q@[k as int]));
                    }
                    k = k + 1;
                }
                proof {
                    assert(q@.subrange(0, q@.len() as int) =~= q@);
                    assert((before + q@) + interpolate(t@.skip(i as int + 2), q@)
                        =~= before + (q@ + interpolate(t@.skip(i as int + 2), q@)));
                }
                i = i + 2;
            } else {
                proof {
                    assert(tail.len() >= 1);
                    assert(tail[0] == t@[i as int]);
                    assert(tail.skip(1) =~= t@.skip(i as int + 1));
                    assert(!(tail.len() >= 2 && tail[0] == '{' && tail[1] == '}'));
                    assert(interpolate(tail, q@) == seq![t@[i as int]] + interpolate(
                        t@.skip(i as int + 1),
                        q@,
                    ));
                    assert(out@.push(t@[i as int]) =~= out@ + seq![t@[i as int]]);
                    assert((out@ + seq![t@[i as int]]) + interpolate(t@.skip(i as int + 1), q@)
                        =~= out@ + (seq![t@[i as int]] + interpolate(t@.skip(i as int + 1), q@)));
                }
                out.push(t[i]);
                i = i + 1;
            }
        }
        proof {
            assert(t@.skip(t@.len() as int).len() == 0);
            assert(out@ + interpolate(t@.skip(t@.len() as int), q@) =~= out@);
        }
        out
    }

    /// Whether the query claims this event.
    pub fn accept_event(&self, ev: &Event) -> (r: bool)
        ensures
            r == query_accepts(*ev),
    {
        match ev {
            Event::AddChar(_) => true,
            Event::DeleteChar => true,
            Event::DeleteCharEOF => true,
            Event::AddCharCmd(_) => true,
            Event::DeleteCharCmd => true,
            _ => false,
        }
    }

    /// Absorb one editing event into the two buffers.
    pub fn handle(&mut self, ev: &Event)
        requires
            query_accepts(*ev),
        ensures
            final(self).base_cmd@ == old(self).base_cmd@,
            *ev matches Event::AddChar(c) ==> final(self).fquery@ == old(self).fquery@.push(c)
                && final(self).cmd_query@ == old(self).cmd_query@,
            (*ev matches Event::DeleteChar || *ev matches Event::DeleteCharEOF) ==> {
                &&& final(self).fquery@ == (if old(self).fquery@.len() > 0 {
                    old(self).fquery@.drop_last()
                } else {
                    old(self).fquery@
                })
                &&& final(self).cmd_query@ == old(self).cmd_query@
            },
            *ev matches Event::AddCharCmd(c) ==> final(self).cmd_query@ == old(
                self,
            ).cmd_query@.push(c) && final(self).fquery@ == old(self).fquery@,
            *ev matches Event::DeleteCharCmd ==> {
                &&& final(self).cmd_query@ == (if old(self).cmd_query@.len() > 0 {
                    old(self).cmd_query@.drop_last()
                } else {
                    old(self).cmd_query@
                })
                &&& final(self).fquery@ == old(self).fquery@
            },
    {
        match ev {
            Event::AddChar(c) => {
                self.fquery.push(*c);
            },
            Event::DeleteChar | Event::DeleteCharEOF => {
                if self.fquery.len() > 0 {
                    self.fquery.pop();
                }
            },
            Event::AddCharCmd(c) => {
                self.cmd_query.push(*c);
            },
            Event::DeleteCharCmd => {
                if self.cmd_query.len() > 0 {
                    self.cmd_query.pop();
                }
            },
            _ => {},
        }
    }
}

} // verus!
