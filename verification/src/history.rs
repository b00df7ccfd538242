//! The de-duplicated history of successfully evaluated expressions, with a
//! cursor for navigating earlier entries back into the input line.

use vstd::prelude::*;

use crate::ast::Expr;
use crate::ast::ExprV;
use crate::ast::eq_expr;
use crate::ast::spec_format;

verus! {

/// Whether some entry is structurally equal to `e`.
pub open spec fn hist_contains(s: Seq<ExprV>, e: ExprV) -> bool {
    exists|i: int| 0 <= i < s.len() && s[i] == e
}

/// Where the cursor moves on one selection step: up towards the oldest
/// entry, down towards the newest, never leaving the entries.
pub open spec fn next_sel(len: int, sel: int, up: bool) -> int {
    if up {
        if sel > 0 {
            sel - 1
        } else {
            0
        }
    } else {
        if sel < len - 1 {
            sel + 1
        } else {
            len - 1
        }
    }
}

/// A de-duplicated list of evaluated expressions and a cursor into it.
pub struct History {
    entries: Vec<Expr>,
    selector: usize,
}

impl History {
    /// The recorded expressions, oldest first.
    pub closed spec fn entries_v(&self) -> Seq<ExprV> {
        self.entries@.map_values(|e: Expr| e@)
    }

    /// The cursor; at most one past the newest entry.
    pub closed spec fn sel(&self) -> int {
        self.selector as int
    }

    pub open spec fn wf(&self) -> bool {
        self.sel() <= self.entries_v().len()
    }

    pub fn new() -> (h: History)
        ensures
            h.entries_v() == Seq::<ExprV>::empty(),
            h.sel() == 0,
            h.wf(),
    {
        let h = History { entries: Vec::new(), selector: 0 };
        proof {
            assert(h.entries_v() =~= Seq::<ExprV>::empty());
        }
        h
    }

    pub fn len(&self) -> (n: usize)
        ensures
            n == self.entries_v().len(),
    {
        self.entries.len()
    }

    /// The index of the entry structurally equal to `e`, if any.
    fn find(&self, e: &Expr) -> (r: Option<usize>)
        ensures
            match r {
                Some(i) => i < self.entries_v().len() && self.entries_v()[i as int] == e@,
                None => !hist_contains(self.entries_v(), e@),
            },
    {
        let ghost ev = self.entries_v();
        let m = self.entries.len();
        let mut i: usize = 0;
        while i < m
            invariant
                i <= m,
                m == self.entries@.len(),
                ev == self.entries_v(),
                forall|j: int| 0 <= j < i ==> ev[j] != e@,
            decreases m - i,
        {
            if eq_expr(&self.entries[i], e) {
                return Some(i);
            }
            i = i + 1;
        }
        None
    }

    /// Appends `e` unless a structurally equal entry is already recorded;
    /// a cursor resting one past the end keeps resting there.
    pub fn record(&mut self, e: Expr)
        requires
            old(self).wf(),
        ensures
            final(self).wf(),
            final(self).entries_v() == if hist_contains(old(self).entries_v(), e@) {
                old(self).entries_v()
            } else {
                old(self).entries_v().push(e@)
            },
            final(self).sel() == if !hist_contains(old(self).entries_v(), e@) && old(self).sel()
                == old(self).entries_v().len() {
                old(self).sel() + 1
            } else {
                old(self).sel()
            },
    {
        match self.find(&e) {
            Some(_) => (),
            None => {
                let ghost ev = self.entries_v();
                let at_end = self.selector == self.entries.len();
                self.entries.push(e);
                proof {
                    assert(self.entries_v() =~= ev.push(e@));
                }
                if at_end {
                    self.selector = self.entries.len();
                }
            },
        }
    }

    /// Moves the cursor one step and hands back the printed text of the
    /// entry it lands on; an empty history leaves everything unchanged.
    pub fn select(&mut self, up: bool) -> (r: Option<String>)
        requires
            old(self).wf(),
        ensures
            final(self).wf(),
            final(self).entries_v() == old(self).entries_v(),
            old(self).entries_v().len() == 0 ==> r is None && final(self).sel() == old(self).sel(),
            old(self).entries_v().len() > 0 ==> {
                &&& final(self).sel() == next_sel(
                    old(self).entries_v().len() as int,
                    old(self).sel(),
                    up,
                )
                &&& r matches Some(s) && s@ == spec_format(
                    final(self).entries_v()[final(self).sel()],
                )
            },
    {
        let len = self.entries.len();
        if len == 0 {
            return None;
        }
        if up {
            if self.selector > 0 {
                self.selector = self.selector - 1;
            }
        } else {
            if self.selector < len - 1 {
                self.selector = self.selector + 1;
            } else {
                self.selector = len - 1;
            }
        }
        Some(self.entries[self.selector].format())
    }

    /// Removes the entry under the cursor, if the cursor is on one, and
    /// pulls the cursor back when it would fall past the shortened list.
    pub fn remove_selected(&mut self)
        requires
            old(self).wf(),
        ensures
            final(self).wf(),
            old(self).sel() < old(self).entries_v().len() ==> {
                &&& final(self).entries_v() == old(self).entries_v().remove(old(self).sel())
                &&& final(self).sel() == ({
                    let shorter = final(self).entries_v().len();
                    if shorter > 0 && shorter <= old(self).sel() {
                        old(self).sel() - 1
                    } else {
                        old(self).sel()
                    }
                })
            },
            old(self).sel() >= old(self).entries_v().len() ==> final(self).entries_v() == old(
                self,
            ).entries_v() && final(self).sel() == old(self).sel(),
    {
        if self.selector < self.entries.len() {
            let ghost ev = self.entries_v();
            let ghost s0 = self.sel();
            self.entries.remove(self.selector);
            proof {
                assert(self.entries_v() =~= ev.remove(s0));
            }
            if self.entries.len() > 0 && self.entries.len() <= self.selector {
                self.selector = self.selector - 1;
            }
        }
    }

    /// Forgets every entry and rests the cursor at the start.
    pub fn clear(&mut self)
        ensures
            final(self).entries_v() == Seq::<ExprV>::empty(),
            final(self).sel() == 0,
            final(self).wf(),
    {
        self.entries = Vec::new();
        self.selector = 0;
        proof {
            assert(self.entries_v() =~= Seq::<ExprV>::empty());
        }
    }
}

} // verus!
