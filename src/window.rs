//! A fixed-capacity FIFO window over `usize` samples, with running sum.

use std::collections::VecDeque;
use vstd::prelude::*;

verus! {

/// Sum of a sequence of samples.
pub open spec fn seq_sum(s: Seq<usize>) -> int
    decreases s.len(),
{
    if s.len() == 0 {
        0
    } else {
        seq_sum(s.drop_last()) + s.last()
    }
}

/// Largest element; 0 for the empty sequence.
pub open spec fn seq_max(s: Seq<usize>) -> int
    decreases s.len(),
{
    if s.len() == 0 {
        0
    } else if seq_max(s.drop_last()) >= s.last() {
        seq_max(s.drop_last())
    } else {
        s.last() as int
    }
}

/// Smallest element; `usize::MAX` for the empty sequence.
pub open spec fn seq_min(s: Seq<usize>) -> int
    decreases s.len(),
{
    if s.len() == 0 {
        usize::MAX as int
    } else if seq_min(s.drop_last()) <= s.last() {
        seq_min(s.drop_last())
    } else {
        s.last() as int
    }
}

/// What a window of capacity `cap` holds after `x` is pushed onto contents `w`.
pub open spec fn pushed(cap: nat, w: Seq<usize>, x: usize) -> Seq<usize> {
    if w.push(x).len() > cap {
        w.push(x).drop_first()
    } else {
        w.push(x)
    }
}

/// What a window of capacity `cap` holds after each of `xs` is pushed in order.
pub open spec fn pushed_all(cap: nat, w: Seq<usize>, xs: Seq<usize>) -> Seq<usize>
    decreases xs.len(),
{
    if xs.len() == 0 {
        w
    } else {
        pushed(cap, pushed_all(cap, w, xs.drop_last()), xs.last())
    }
}

/// The last `n` elements of `s` (all of `s` when it is shorter).
pub open spec fn last_n(s: Seq<usize>, n: nat) -> Seq<usize> {
    if s.len() > n {
        s.subrange(s.len() - n, s.len() as int)
    } else {
        s
    }
}

pub proof fn lemma_sum_push(s: Seq<usize>, x: usize)
    ensures
        seq_sum(s.push(x)) == seq_sum(s) + x,
{
    assert(s.push(x).drop_last() =~= s);
}

pub proof fn lemma_sum_drop_first(s: Seq<usize>)
    requires
        s.len() > 0,
    ensures
        seq_sum(s) == s[0] + seq_sum(s.drop_first()),
    decreases s.len(),
{
    if s.len() > 1 {
        lemma_sum_drop_first(s.drop_last());
        assert(s.drop_last().drop_first() =~= s.drop_first().drop_last());
        assert(s.drop_first().last() == s.last());
        assert(seq_sum(s.drop_first()) == seq_sum(s.drop_first().drop_last()) + s.drop_first().last());
    } else {
        assert(s.drop_first().len() == 0);
        assert(s.drop_last().len() == 0);
        assert(seq_sum(s.drop_first()) == 0);
        assert(seq_sum(s.drop_last()) == 0);
    }
}

pub proof fn lemma_sum_bounds(s: Seq<usize>)
    ensures
        0 <= seq_sum(s) <= s.len() * (usize::MAX as int),
    decreases s.len(),
{
    if s.len() > 0 {
        lemma_sum_bounds(s.drop_last());
        assert((s.len() - 1) * (usize::MAX as int) + usize::MAX == s.len() * (usize::MAX as int))
            by (nonlinear_arith);
    }
}

/// The sum is zero exactly when every sample is zero.
pub proof fn lemma_sum_zero_iff_all_zero(s: Seq<usize>)
    ensures
        (seq_sum(s) == 0) <==> (forall|i: int| 0 <= i < s.len() ==> s[i] == 0),
    decreases s.len(),
{
    lemma_sum_bounds(s);
    if s.len() > 0 {
        let d = s.drop_last();
        lemma_sum_zero_iff_all_zero(d);
        lemma_sum_bounds(d);
        if seq_sum(s) == 0 {
            assert forall|i: int| 0 <= i < s.len() implies s[i] == 0 by {
                if i < s.len() - 1 {
                    assert(d[i] == s[i]);
                }
            }
        }
        if forall|i: int| 0 <= i < s.len() ==> s[i] == 0 {
            assert forall|i: int| 0 <= i < d.len() implies d[i] == 0 by {
                assert(s[i] == 0);
            }
        }
    }
}

/// Every element lies between the minimum and the maximum.
pub proof fn lemma_min_max_bound(s: Seq<usize>)
    ensures
        forall|i: int| 0 <= i < s.len() ==> seq_min(s) <= #[trigger] s[i] <= seq_max(s),
        s.len() > 0 ==> seq_min(s) <= seq_max(s),
        0 <= seq_max(s) <= usize::MAX,
        0 <= seq_min(s) <= usize::MAX,
    decreases s.len(),
{
    if s.len() > 0 {
        let d = s.drop_last();
        lemma_min_max_bound(d);
        assert forall|i: int| 0 <= i < s.len() implies seq_min(s) <= #[trigger] s[i] <= seq_max(s) by {
            if i < s.len() - 1 {
                assert(d[i] == s[i]);
            }
        }
    }
}

/// Pushing into a window keeps the last `cap` elements of everything pushed so far.
pub proof fn lemma_pushed_all_keeps_last(cap: nat, w: Seq<usize>, xs: Seq<usize>)
    requires
        cap >= 1,
        w.len() <= cap,
    ensures
        pushed_all(cap, w, xs) == last_n(w + xs, cap),
    decreases xs.len(),
{
    if xs.len() > 0 {
        let d = xs.drop_last();
        lemma_pushed_all_keeps_last(cap, w, d);
        let prev = last_n(w + d, cap);
        assert((w + d).push(xs.last()) =~= w + xs);
        let all = w + xs;
        if (w + d).len() > cap {
            assert(prev.push(xs.last()).drop_first() =~= all.subrange(all.len() - cap, all.len() as int));
        } else if all.len() > cap {
            assert(prev.push(xs.last()).drop_first() =~= all.subrange(all.len() - cap, all.len() as int));
        } else {
            assert(prev.push(xs.last()) =~= all);
        }
    } else {
        assert(w + xs =~= w);
    }
}

/// Law of the window: starting empty, after more pushes than the capacity, it holds
/// exactly `capacity` elements, the last ones pushed, in the order they were pushed.
pub proof fn lemma_window_holds_last_pushes(cap: nat, xs: Seq<usize>)
    requires
        cap >= 1,
        xs.len() > cap,
    ensures
        pushed_all(cap, Seq::empty(), xs).len() == cap,
        pushed_all(cap, Seq::empty(), xs) == xs.subrange(xs.len() - cap, xs.len() as int),
{
    lemma_pushed_all_keeps_last(cap, Seq::empty(), xs);
    assert(Seq::<usize>::empty() + xs =~= xs);
}

/// A ring of the most recent samples, oldest first.
pub struct RollingWindow {
    items: VecDeque<usize>,
    capacity: usize,
    total: u128,
}

impl View for RollingWindow {
    type V = Seq<usize>;

    closed spec fn view(&self) -> Seq<usize> {
        self.items@
    }
}

impl RollingWindow {
    /// The capacity the window was built with.
    pub closed spec fn cap(&self) -> nat {
        self.capacity as nat
    }

    pub closed spec fn wf(&self) -> bool {
        &&& 1 <= self.capacity
        &&& self.items@.len() <= self.capacity
        &&& self.total == seq_sum(self.items@)
    }

    /// An empty window of the given capacity.
    pub fn new(capacity: usize) -> (r: Self)
        requires
            capacity >= 1,
        ensures
            r.wf(),
            r@ == Seq::<usize>::empty(),
            r.cap() == capacity,
    {
        RollingWindow { items: VecDeque::new(), capacity, total: 0 }
    }

    pub fn capacity(&self) -> (r: usize)
        ensures
            r == self.cap(),
    {
        self.capacity
    }

    pub fn len(&self) -> (r: usize)
        requires
            self.wf(),
        ensures
            r == self@.len(),
            r <= self.cap(),
    {
        self.items.len()
    }

    /// Appends `x`; when the window then holds more than its capacity, the oldest
    /// sample is dropped.
    pub fn push(&mut self, x: usize)
        requires
            old(self).wf(),
        ensures
            final(self).wf(),
            final(self).cap() == old(self).cap(),
            final(self)@ == pushed(old(self).cap(), old(self)@, x),
            final(self)@.len() <= final(self).cap(),
            final(self).cap() >= 1,
    {
        let ghost before = self.items@;
        proof {
            lemma_sum_bounds(before);
            lemma_sum_push(before, x);
            assert(before.len() * (usize::MAX as int) + usize::MAX <= (usize::MAX as int + 1)
                * (usize::MAX as int)) by (nonlinear_arith)
                requires
                    before.len() <= usize::MAX,
            ;
            assert((usize::MAX as int + 1) * (usize::MAX as int) <= u128::MAX) by (nonlinear_arith)
                requires
                    usize::MAX <= u64::MAX,
            ;
        }
        self.items.push_back(x);
        self.total = self.total + x as u128;
        if self.items.len() > self.capacity {
            let ghost mid = self.items@;
            let gone = self.items.pop_front();
            proof {
                lemma_sum_drop_first(mid);
                lemma_sum_bounds(mid.drop_first());
                assert(self.items@ =~= mid.drop_first());
            }
            match gone {
                Some(g) => {
                    self.total = self.total - g as u128;
                },
                None => {},
            }
        }
    }

    /// The samples held, oldest first.
    pub fn snapshot(&self) -> (r: Vec<usize>)
        requires
            self.wf(),
        ensures
            r@ == self@,
    {
        let n = self.items.len();
        let mut out: Vec<usize> = Vec::new();
        let mut i: usize = 0;
        while i < n
            invariant
                n == self@.len(),
                i <= n,
                out@ == self@.subrange(0, i as int),
            decreases n - i,
        {
            out.push(self.items[i]);
            proof {
                assert(out@ =~= self@.subrange(0, i as int + 1));
            }
            i = i + 1;
        }
        assert(self@.subrange(0, n as int) =~= self@);
        out
    }

    /// Sum of the samples held.
    pub fn sum(&self) -> (r: u128)
        requires
            self.wf(),
        ensures
            r == seq_sum(self@),
    {
        self.total
    }

    /// Largest sample held; `usize::MAX` when the window is empty.
    pub fn max(&self) -> (r: usize)
        requires
            self.wf(),
        ensures
            self@.len() == 0 ==> r == usize::MAX,
            self@.len() > 0 ==> r == seq_max(self@),
    {
        let n = self.items.len();
        if n == 0 {
            return usize::MAX;
        }
        let mut best: usize = 0;
        let mut i: usize = 0;
        while i < n
            invariant
                n == self@.len(),
                i <= n,
                best == seq_max(self@.subrange(0, i as int)),
            decreases n - i,
        {
            let x = self.items[i];
            proof {
                let s = self@.subrange(0, i as int + 1);
                assert(s.drop_last() =~= self@.subrange(0, i as int));
                lemma_min_max_bound(self@.subrange(0, i as int));
            }
            if x > best {
                best = x;
            }
            i = i + 1;
        }
        assert(self@.subrange(0, n as int) =~= self@);
        best
    }

    /// Smallest sample held; 0 when the window is empty.
    pub fn min(&self) -> (r: usize)
        requires
            self.wf(),
        ensures
            self@.len() == 0 ==> r == 0,
            self@.len() > 0 ==> r == seq_min(self@),
    {
        let n = self.items.len();
        if n == 0 {
            return 0;
        }
        let mut best: usize = usize::MAX;
        let mut i: usize = 0;
        while i < n
            invariant
                n == self@.len(),
                i <= n,
                best == seq_min(self@.subrange(0, i as int)),
            decreases n - i,
        {
            let x = self.items[i];
            proof {
                let s = self@.subrange(0, i as int + 1);
                assert(s.drop_last() =~= self@.subrange(0, i as int));
            }
            if x < best {
                best = x;
            }
            i = i + 1;
        }
        assert(self@.subrange(0, n as int) =~= self@);
        best
    }
}

} // verus!
