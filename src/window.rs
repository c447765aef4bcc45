//! A fixed-capacity ring buffer of the latest items.
use vstd::prelude::*;

verus! {

/// The items held after pushing `xs`, in order, into a window holding `w`:
/// the last `w.len()` items of `w + xs`, oldest first.
pub open spec fn after_pushes<T>(w: Seq<T>, xs: Seq<T>) -> Seq<T> {
    (w + xs).subrange(xs.len() as int, (w.len() + xs.len()) as int)
}

/// A ring buffer of a fixed capacity. `push` evicts and returns the oldest item.
#[derive(Debug)]
pub struct Window<T> {
    buf: Vec<T>,
    index: usize,
}

impl<T: Copy> Window<T> {
    /// The items held, oldest first.
    pub closed spec fn view(&self) -> Seq<T> {
        self.buf@.subrange(self.index as int, self.buf@.len() as int) + self.buf@.subrange(
            0,
            self.index as int,
        )
    }

    pub closed spec fn wf(&self) -> bool {
        0 <= self.index < self.buf@.len()
    }

    /// A window of `capacity` items, every one of them `seed`.
    pub fn new(capacity: usize, seed: T) -> (w: Self)
        requires
            capacity >= 1,
        ensures
            w.wf(),
            w.view() == Seq::new(capacity as nat, |i: int| seed),
    {
        let mut buf: Vec<T> = Vec::new();
        while buf.len() < capacity
            invariant
                buf.len() <= capacity,
                forall|i: int| 0 <= i < buf@.len() ==> buf@[i] == seed,
            decreases capacity - buf.len(),
        {
            buf.push(seed);
        }
        let w = Window { buf, index: 0 };
        assert(w.view() =~= Seq::new(capacity as nat, |i: int| seed));
        w
    }

    /// The number of items held.
    pub fn capacity(&self) -> (n: usize)
        requires
            self.wf(),
        ensures
            n == self.view().len(),
    {
        self.buf.len()
    }

    /// The item `i` steps after the oldest.
    pub fn get(&self, i: usize) -> (r: T)
        requires
            self.wf(),
            i < self.view().len(),
        ensures
            r == self.view()[i as int],
    {
        let n = self.buf.len();
        let k: usize = if i < n - self.index {
            self.index + i
        } else {
            i - (n - self.index)
        };
        self.buf[k]
    }

    /// Appends `item` as the newest and returns the oldest, which leaves.
    pub fn push(&mut self, item: T) -> (r: T)
        requires
            old(self).wf(),
        ensures
            final(self).wf(),
            r == old(self).view()[0],
            final(self).view() == old(self).view().drop_first().push(item),
            final(self).view().len() == old(self).view().len(),
    {
        let ghost before = self.view();
        let r = self.buf[self.index];
        let next: usize = if self.index == self.buf.len() - 1 {
            0
        } else {
            self.index + 1
        };
        self.buf.set(self.index, item);
        self.index = next;
        assert(self.view() =~= before.drop_first().push(item));
        r
    }
}

/// Pushing one more item shifts the window by one.
pub proof fn lemma_after_pushes_step<T>(w: Seq<T>, xs: Seq<T>, x: T)
    requires
        w.len() >= 1,
    ensures
        after_pushes(w, xs.push(x)) == after_pushes(w, xs).drop_first().push(x),
{
    assert((w + xs.push(x)) =~= (w + xs).push(x));
    assert(after_pushes(w, xs.push(x)) =~= after_pushes(w, xs).drop_first().push(x));
}

/// First in, first out: once a window of capacity `c` has taken `c` pushes it holds
/// exactly those items, so the next push hands back the first of them.
pub proof fn lemma_window_fifo<T>(w: Seq<T>, xs: Seq<T>, x: T)
    requires
        w.len() == xs.len(),
        xs.len() >= 1,
    ensures
        after_pushes(w, xs) == xs,
        after_pushes(w, xs)[0] == xs[0],
        after_pushes(w, xs.push(x)).len() == w.len(),
{
    assert(after_pushes(w, xs) =~= xs);
    lemma_after_pushes_step(w, xs, x);
}

/// Once at least `w.len()` copies of `v` have been pushed, the window holds only `v`.
pub proof fn lemma_constant_fill<T>(w: Seq<T>, k: nat, v: T)
    requires
        k >= w.len(),
    ensures
        after_pushes(w, Seq::new(k, |i: int| v)) == Seq::new(w.len(), |i: int| v),
{
    assert(after_pushes(w, Seq::new(k, |i: int| v)) =~= Seq::new(w.len(), |i: int| v));
}

/// A window that holds only `v` keeps holding only `v` whatever number of `v` it takes.
pub proof fn lemma_constant_stays<T>(w: Seq<T>, k: nat, v: T)
    requires
        w == Seq::new(w.len(), |i: int| v),
    ensures
        after_pushes(w, Seq::new(k, |i: int| v)) == w,
{
    assert(after_pushes(w, Seq::new(k, |i: int| v)) =~= w);
}

} // verus!
