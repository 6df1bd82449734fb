//! Boxing of native values as integer handles. Handles are never reused, so
//! a stale handle or a second free is detected instead of undefined.
use vstd::prelude::*;

verus! {

/// The live values of one static type, keyed by handle; zero is never a
/// handle.
pub struct HandleTable<T> {
    slots: Vec<Option<T>>,
}

impl<T> View for HandleTable<T> {
    type V = Map<i64, T>;

    closed spec fn view(&self) -> Map<i64, T> {
        Map::new(
            |h: i64| 1 <= h <= self.slots@.len() && self.slots@[h - 1] is Some,
            |h: i64| self.slots@[h - 1]->Some_0,
        )
    }
}

/// `to_handle(value)` took the table from `before` to `after` and returned
/// `h`: a fresh, nonzero handle now bound to `value`.
pub open spec fn handed_out<T>(before: HandleTable<T>, value: T, h: i64, after: HandleTable<T>) -> bool {
    &&& h >= 1
    &&& h == before.next_handle()
    &&& !before@.contains_key(h)
    &&& after@ == before@.insert(h, value)
    &&& after.next_handle() == before.next_handle() + 1
}

/// `free_handle(h)` took the table from `before` to `after` and returned `r`:
/// the value bound to `h`, now unbound, or `None` when `h` was not live.
pub open spec fn released<T>(before: HandleTable<T>, h: i64, r: Option<T>, after: HandleTable<T>) -> bool {
    &&& after@ == before@.remove(h)
    &&& after.next_handle() == before.next_handle()
    &&& r == if before@.contains_key(h) {
        Some(before@[h])
    } else {
        None::<T>
    }
}

impl<T> HandleTable<T> {
    /// The handle that the next `to_handle` returns.
    pub closed spec fn next_handle(&self) -> int {
        self.slots@.len() + 1int
    }

    pub fn new() -> (r: HandleTable<T>)
        ensures
            r@ == Map::<i64, T>::empty(),
            r.next_handle() == 1,
    {
        let r = HandleTable { slots: Vec::new() };
        assert(r@ =~= Map::<i64, T>::empty());
        r
    }

    /// Moves `value` into the table and returns its handle; hands `value`
    /// back, with nothing changed, once every positive `i64` has been issued.
    pub fn to_handle(&mut self, value: T) -> (r: Result<i64, T>)
        ensures
            r is Ok <==> old(self).next_handle() <= i64::MAX,
            r matches Ok(h) ==> handed_out(*old(self), value, h, *final(self)),
            r matches Err(v) ==> v == value && *final(self) == *old(self),
    {
        if self.slots.len() as u64 >= i64::MAX as u64 {
            return Err(value);
        }
        let ghost before = *self;
        let h = self.slots.len() as i64 + 1;
        self.slots.push(Some(value));
        assert(self@ =~= before@.insert(h, value));
        Ok(h)
    }

    /// The value bound to `h`, or `None` when `h` is not live.
    pub fn from_handle(&self, h: i64) -> (r: Option<&T>)
        ensures
            match r {
                Some(v) => self@.contains_key(h) && *v == self@[h],
                None => !self@.contains_key(h),
            },
    {
        if h < 1 || h as u64 > self.slots.len() as u64 {
            return None;
        }
        match &self.slots[(h as u64 - 1) as usize] {
            Some(v) => Some(v),
            None => None,
        }
    }

    /// The value bound to `h`, to change in place, or `None` when `h` is not
    /// live.
    pub fn from_handle_mut(&mut self, h: i64) -> (r: Option<&mut T>)
        ensures
            match r {
                Some(v) => old(self)@.contains_key(h) && *v == old(self)@[h] && final(self)@
                    == old(self)@.insert(h, *final(v)),
                None => !old(self)@.contains_key(h) && final(self)@ == old(self)@,
            },
            final(self).next_handle() == old(self).next_handle(),
    {
        if h < 1 || h as u64 > self.slots.len() as u64 {
            return None;
        }
        match &mut self.slots[(h as u64 - 1) as usize] {
            Some(v) => Some(v),
            None => None,
        }
    }

    /// Unbinds `h` and hands back its value; `None`, with nothing changed,
    /// when `h` is not live (never issued, or already freed).
    pub fn free_handle(&mut self, h: i64) -> (r: Option<T>)
        ensures
            released(*old(self), h, r, *final(self)),
    {
        let ghost before = *self;
        if h < 1 || h as u64 > self.slots.len() as u64 {
            assert(self@ =~= before@.remove(h));
            return None;
        }
        let mut out: Option<T> = None;
        std::mem::swap(&mut out, &mut self.slots[(h as u64 - 1) as usize]);
        assert(self@ =~= before@.remove(h));
        out
    }
}

/// A value boxed by `to_handle` reads back unchanged through `from_handle`,
/// and one `free_handle` hands it back and leaves the table as it was before:
/// nothing leaks, and a second free of the same handle finds nothing.
pub proof fn lemma_handle_lifecycle<T>(
    t0: HandleTable<T>,
    value: T,
    h: i64,
    t1: HandleTable<T>,
    freed: Option<T>,
    t2: HandleTable<T>,
    again: Option<T>,
    t3: HandleTable<T>,
)
    requires
        handed_out(t0, value, h, t1),
        released(t1, h, freed, t2),
        released(t2, h, again, t3),
    ensures
        t1@.contains_key(h) && t1@[h] == value,
        freed == Some(value),
        t2@ == t0@,
        again is None,
        t3@ == t0@,
{
    assert(t2@ =~= t0@);
    assert(t3@ =~= t0@);
}

} // verus!
