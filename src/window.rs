use vstd::prelude::*;

verus! {

/// The buffer that results from appending `v` to `buf` in a window that holds
/// at most `cap` entries: when the buffer is full, its oldest entry leaves first.
pub open spec fn pushed<T>(buf: Seq<T>, cap: nat, v: T) -> Seq<T> {
    if buf.len() >= cap {
        buf.subrange(1, buf.len() as int).push(v)
    } else {
        buf.push(v)
    }
}

/// The buffer after pushing each of `vals` in turn.
pub open spec fn pushed_all<T>(buf: Seq<T>, cap: nat, vals: Seq<T>) -> Seq<T>
    decreases vals.len(),
{
    if vals.len() == 0 {
        buf
    } else {
        pushed(pushed_all(buf, cap, vals.drop_last()), cap, vals.last())
    }
}

/// The last `min(cap, s.len())` entries of `s`.
pub open spec fn latest<T>(s: Seq<T>, cap: nat) -> Seq<T> {
    if s.len() <= cap {
        s
    } else {
        s.subrange(s.len() - cap, s.len() as int)
    }
}

/// Strict FIFO: starting from a buffer within capacity, pushing any values one
/// by one leaves exactly the most recent `cap` of everything seen, oldest first.
pub proof fn lemma_fifo<T>(buf: Seq<T>, cap: nat, vals: Seq<T>)
    requires
        cap > 0,
        buf.len() <= cap,
    ensures
        pushed_all(buf, cap, vals) == latest(buf + vals, cap),
    decreases vals.len(),
{
    if vals.len() > 0 {
        let prev = vals.drop_last();
        lemma_fifo(buf, cap, prev);
        let before = buf + prev;
        let all = buf + vals;
        assert(all =~= before.push(vals.last()));
        let p = latest(before, cap);
        if before.len() < cap {
            assert(pushed(p, cap, vals.last()) =~= latest(all, cap));
        } else {
            assert(p.len() == cap);
            assert(pushed(p, cap, vals.last()) =~= latest(all, cap));
        }
    } else {
        assert(buf + vals =~= buf);
    }
}

/// A fixed-capacity FIFO buffer, oldest entry first.
pub struct RollingWindow<T> {
    capacity: usize,
    buffer: Vec<T>,
}

impl<T> View for RollingWindow<T> {
    type V = Seq<T>;

    closed spec fn view(&self) -> Seq<T> {
        self.buffer@
    }
}

impl<T> RollingWindow<T> {
    /// The largest number of entries the window keeps.
    pub closed spec fn cap(&self) -> nat {
        self.capacity as nat
    }

    /// The capacity is positive and never exceeded.
    pub open spec fn wf(&self) -> bool {
        &&& self.cap() > 0
        &&& self@.len() <= self.cap()
    }

    pub fn new(capacity: usize) -> (r: Self)
        requires
            capacity > 0,
        ensures
            r.wf(),
            r.cap() == capacity,
            r@ == Seq::<T>::empty(),
    {
        RollingWindow { capacity, buffer: Vec::new() }
    }

    /// Appends `v`, first evicting the oldest entry when the window is full.
    pub fn push(&mut self, v: T)
        requires
            old(self).wf(),
        ensures
            final(self).wf(),
            final(self).cap() == old(self).cap(),
            final(self)@ == pushed(old(self)@, old(self).cap(), v),
            final(self)@.len() <= final(self).cap(),
    {
        if self.buffer.len() == self.capacity {
            let ghost before = self.buffer@;
            self.buffer.remove(0);
            assert(self.buffer@ =~= before.subrange(1, before.len() as int));
        }
        self.buffer.push(v);
    }

    pub fn len(&self) -> (r: usize)
        requires
            self.wf(),
        ensures
            r == self@.len(),
    {
        self.buffer.len()
    }

    pub fn capacity(&self) -> (r: usize)
        ensures
            r == self.cap(),
    {
        self.capacity
    }

    /// The stored entries, oldest first.
    pub fn as_slice(&self) -> (r: &[T])
        ensures
            r@ == self@,
    {
        self.buffer.as_slice()
    }
}

} // verus!
