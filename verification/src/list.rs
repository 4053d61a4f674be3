//! Ordered collection with a current index and wrap-around navigation.
//!
//! `next` and `prev` are total: on an empty list both are no-ops, and on a
//! non-empty list the index moves by one modulo the length, so it can never
//! leave `[0, len)`.

use vstd::arithmetic::div_mod::lemma_mod_bound;
use vstd::arithmetic::div_mod::lemma_small_mod;
use vstd::prelude::*;

verus! {

/// A list of items together with the index of the currently selected one.
pub struct ListWithState<T> {
    pub index: usize,
    pub datas: Vec<T>,
}

/// One navigation step over the selection.
#[derive(Clone, Copy, PartialEq, Eq, Structural, Debug)]
pub enum NavOp {
    Next,
    Prev,
}

/// Index reached from `index` by one navigation step over a list of length
/// `n >= 1`.
pub open spec fn nav_step(op: NavOp, index: int, n: int) -> int {
    match op {
        NavOp::Next => (index + 1) % n,
        NavOp::Prev => (index + n - 1) % n,
    }
}

/// Index reached from `index` by a whole sequence of navigation steps over a
/// list of length `n >= 1`.
pub open spec fn nav_trace(ops: Seq<NavOp>, index: int, n: int) -> int
    decreases ops.len(),
{
    if ops.len() == 0 {
        index
    } else {
        nav_trace(ops.drop_first(), nav_step(ops.first(), index, n), n)
    }
}

impl<T> ListWithState<T> {
    /// The selected index stays inside the list; an empty list pins it to 0.
    pub open spec fn wf(&self) -> bool {
        if self.datas@.len() == 0 {
            self.index == 0
        } else {
            self.index < self.datas@.len()
        }
    }

    pub fn new() -> (r: Self)
        ensures
            r.wf(),
            r.index == 0,
            r.datas@ =~= Seq::<T>::empty(),
    {
        ListWithState { index: 0, datas: Vec::new() }
    }

    /// The currently selected item.
    pub fn current(&self) -> (r: &T)
        requires
            self.index < self.datas@.len(),
        ensures
            *r == self.datas@[self.index as int],
    {
        &self.datas[self.index]
    }

    /// Select the next item, wrapping around at the end; no-op when empty.
    pub fn next(&mut self)
        requires
            old(self).wf(),
        ensures
            final(self).wf(),
            final(self).datas@ == old(self).datas@,
            old(self).datas@.len() == 0 ==> final(self).index == old(self).index,
            old(self).datas@.len() > 0 ==> final(self).index as int == nav_step(
                NavOp::Next,
                old(self).index as int,
                old(self).datas@.len() as int,
            ),
    {
        if self.datas.len() == 0 {
            return ;
        }
        proof {
            lemma_nav_step_in_range(NavOp::Next, self.index as int, self.datas@.len() as int);
        }
        if self.index >= self.datas.len() - 1 {
            self.index = 0;
        } else {
            self.index = self.index + 1;
        }
    }

    /// Select the previous item, wrapping around at the start; no-op when
    /// empty.
    pub fn previous(&mut self)
        requires
            old(self).wf(),
        ensures
            final(self).wf(),
            final(self).datas@ == old(self).datas@,
            old(self).datas@.len() == 0 ==> final(self).index == old(self).index,
            old(self).datas@.len() > 0 ==> final(self).index as int == nav_step(
                NavOp::Prev,
                old(self).index as int,
                old(self).datas@.len() as int,
            ),
    {
        if self.datas.len() == 0 {
            return ;
        }
        proof {
            lemma_nav_step_in_range(NavOp::Prev, self.index as int, self.datas@.len() as int);
        }
        if self.index == 0 {
            self.index = self.datas.len() - 1;
        } else {
            self.index = self.index - 1;
        }
    }
}

impl<T: Clone> Clone for ListWithState<T> {
    fn clone(&self) -> (r: Self)
        ensures
            r.index == self.index,
            r.datas@.len() == self.datas@.len(),
            forall|i: int|
                0 <= i < self.datas@.len() ==> cloned::<T>(self.datas@[i], #[trigger] r.datas@[i]),
    {
        ListWithState { index: self.index, datas: self.datas.clone() }
    }
}

/// One navigation step over a non-empty list keeps the index in `[0, n)`;
/// with a single item it is a no-op; `Prev` from 0 lands on `n - 1` and
/// `Next` from `n - 1` lands on 0.
pub proof fn lemma_nav_step_in_range(op: NavOp, index: int, n: int)
    requires
        n >= 1,
        0 <= index < n,
    ensures
        0 <= nav_step(op, index, n) < n,
        n == 1 ==> nav_step(op, index, n) == index,
        op == NavOp::Prev && index == 0 ==> nav_step(op, index, n) == n - 1,
        op == NavOp::Next && index == n - 1 ==> nav_step(op, index, n) == 0,
        op == NavOp::Next && index < n - 1 ==> nav_step(op, index, n) == index + 1,
        op == NavOp::Prev && index > 0 ==> nav_step(op, index, n) == index - 1,
{
    lemma_mod_bound(index + 1, n);
    lemma_mod_bound(index + n - 1, n);
    if index + 1 < n {
        lemma_small_mod((index + 1) as nat, n as nat);
    } else {
        assert((index + 1) % n == 0) by {
            lemma_small_mod(0nat, n as nat);
            assert(index + 1 == n);
            assert(n % n == (0 + 1 * n) % n);
            vstd::arithmetic::div_mod::lemma_mod_multiples_vanish(1, 0, n);
        }
    }
    if index == 0 {
        lemma_small_mod((n - 1) as nat, n as nat);
    } else {
        lemma_small_mod((index - 1) as nat, n as nat);
        assert((index + n - 1) % n == (index - 1) % n) by {
            vstd::arithmetic::div_mod::lemma_mod_multiples_vanish(1, index - 1, n);
        }
    }
}

/// The half-open window of rows the renderer shows: the rows partition the
/// list into pages of `rows` entries, and the page holding the selection is
/// displayed, clipped to the end of the list.
pub fn visible_window(selected: usize, rows: usize, len: usize) -> (w: (usize, usize))
    requires
        rows >= 1,
        selected < len,
    ensures
        w.0 == (selected as int / rows as int) * rows,
        w.1 == (if w.0 + rows <= len {
            w.0 + rows as int
        } else {
            len as int
        }),
        w.0 <= selected < w.1 <= len,
{
    proof {
        vstd::arithmetic::div_mod::lemma_fundamental_div_mod(selected as int, rows as int);
    }
    let start = (selected / rows) * rows;
    let end = if len - start < rows {
        len
    } else {
        start + rows
    };
    (start, end)
}

/// Any sequence of `next`/`prev` steps over a non-empty list keeps the
/// selected index in `[0, n)`.
pub proof fn lemma_nav_trace_in_range(ops: Seq<NavOp>, index: int, n: int)
    requires
        n >= 1,
        0 <= index < n,
    ensures
        0 <= nav_trace(ops, index, n) < n,
    decreases ops.len(),
{
    if ops.len() > 0 {
        lemma_nav_step_in_range(ops.first(), index, n);
        lemma_nav_trace_in_range(ops.drop_first(), nav_step(ops.first(), index, n), n);
    }
}

} // verus!
