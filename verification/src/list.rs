//! The `List` builtin type: a growable sequence of values, with the indexing
//! rules of the virtual machine.
use crate::errors::VmErrorReason;
use vstd::prelude::*;

verus! {

/// The contents after storing `val` at `idx`: an index inside the list
/// replaces an element, the index just past the end appends, and any larger
/// index is refused.
pub open spec fn set_at_spec<V>(s: Seq<V>, idx: int, val: V) -> Option<Seq<V>> {
    if 0 <= idx < s.len() {
        Some(s.update(idx, val))
    } else if idx == s.len() {
        Some(s.push(val))
    } else {
        None
    }
}

/// The element at `idx`, if the list has one there.
pub open spec fn get_at_spec<V>(s: Seq<V>, idx: int) -> Option<V> {
    if 0 <= idx < s.len() {
        Some(s[idx])
    } else {
        None
    }
}

/// Reading an index after a store there gives the value stored, and every
/// other element keeps its value.
pub proof fn lemma_set_then_get<V>(s: Seq<V>, idx: int, val: V, other: int)
    requires
        set_at_spec(s, idx, val) is Some,
    ensures
        get_at_spec(set_at_spec(s, idx, val)->Some_0, idx) == Some(val),
        other != idx ==> get_at_spec(set_at_spec(s, idx, val)->Some_0, other) == get_at_spec(s, other),
{
}

/// A store is refused exactly when the index lies beyond the end of the list.
pub proof fn lemma_set_refused_past_end<V>(s: Seq<V>, idx: int, val: V)
    requires
        0 <= idx,
    ensures
        set_at_spec(s, idx, val) is None <==> idx > s.len(),
{
}

/// A list of values.
pub struct List<V> {
    values: Vec<V>,
}

impl<V> View for List<V> {
    type V = Seq<V>;

    closed spec fn view(&self) -> Seq<V> {
        self.values@
    }
}

impl<V> List<V> {
    /// An empty list.
    pub fn new() -> (r: Self)
        ensures
            r@ == Seq::<V>::empty(),
    {
        List { values: Vec::new() }
    }

    /// An empty list with room for `cap` values.
    pub fn new_with_capacity(cap: usize) -> (r: Self)
        ensures
            r@ == Seq::<V>::empty(),
    {
        List { values: Vec::with_capacity(cap) }
    }

    /// The number of values in the list.
    pub fn len(&self) -> (r: usize)
        ensures
            r == self@.len(),
    {
        self.values.len()
    }

    /// Whether the list holds no value.
    pub fn is_empty(&self) -> (r: bool)
        ensures
            r == (self@.len() == 0),
    {
        self.values.len() == 0
    }

    /// Adds `val` at the end of the list.
    pub fn append(&mut self, val: V)
        ensures
            final(self)@ == old(self)@.push(val),
    {
        self.values.push(val);
    }

    /// Removes the last value, if there is one.
    pub fn pop(&mut self)
        ensures
            old(self)@.len() == 0 ==> final(self)@ == old(self)@,
            old(self)@.len() > 0 ==> final(self)@ == old(self)@.drop_last(),
    {
        let _ = self.values.pop();
    }

    /// Stores `val` at `idx`: inside the list it replaces the value there, just
    /// past the end it is appended, and beyond that the list is left unchanged
    /// and the index is reported out of bounds.
    pub fn set_at(&mut self, idx: usize, val: V) -> (r: Result<(), VmErrorReason>)
        ensures
            set_at_spec(old(self)@, idx as int, val) matches Some(s) ==> r is Ok && final(self)@ == s,
            set_at_spec(old(self)@, idx as int, val) is None ==> (r matches Err(
                VmErrorReason::IndexOutOfBounds(i),
            ) && i == idx && final(self)@ == old(self)@),
    {
        let n = self.values.len();
        if idx < n {
            self.values.set(idx, val);
            Ok(())
        } else if idx == n {
            self.values.push(val);
            Ok(())
        } else {
            Err(VmErrorReason::IndexOutOfBounds(idx))
        }
    }
}

impl<V: Clone> List<V> {
    /// A list holding copies of `values`, in order.
    pub fn from(values: &[V]) -> (r: Self)
        ensures
            r@.len() == values@.len(),
            forall|i: int| 0 <= i < values@.len() ==> cloned::<V>(values@[i], #[trigger] r@[i]),
    {
        let mut r: Vec<V> = Vec::new();
        let mut i: usize = 0;
        while i < values.len()
            invariant
                i <= values@.len(),
                r@.len() == i,
                forall|j: int| 0 <= j < i ==> cloned::<V>(values@[j], #[trigger] r@[j]),
            decreases values@.len() - i,
        {
            let v = values[i].clone();
            r.push(v);
            i += 1;
        }
        List { values: r }
    }

    /// A copy of the value at `idx`, if the list has one there.
    pub fn get_at(&self, idx: usize) -> (r: Option<V>)
        ensures
            idx < self@.len() ==> (r matches Some(v) && cloned::<V>(self@[idx as int], v)),
            idx >= self@.len() ==> r is None,
    {
        if idx < self.values.len() {
            Some(self.values[idx].clone())
        } else {
            None
        }
    }

    /// Removes the last value and hands it back (the `drop` method of
    /// `List`); an empty list reports index 0 out of bounds.
    pub fn drop_last(&mut self) -> (r: Result<V, VmErrorReason>)
        ensures
            old(self)@.len() == 0 ==> (r matches Err(VmErrorReason::IndexOutOfBounds(i)) && i == 0
                && final(self)@ == old(self)@),
            old(self)@.len() > 0 ==> (r matches Ok(v) && cloned::<V>(old(self)@.last(), v)
                && final(self)@ == old(self)@.drop_last()),
    {
        let n = self.values.len();
        if n == 0 {
            return Err(VmErrorReason::IndexOutOfBounds(0));
        }
        let v = self.values[n - 1].clone();
        let _ = self.values.pop();
        Ok(v)
    }

    /// Reads the list at index `idx` (`None` where the index is not an
    /// integer); the integer is taken as a `usize`, so a negative one is out of
    /// bounds.
    pub fn read_index(&self, idx: Option<i64>) -> (r: Result<V, VmErrorReason>)
        ensures
            idx is None ==> (r matches Err(e) && e is UnexpectedType),
            idx matches Some(i) ==> ((i as usize) < self@.len() ==> (r matches Ok(v) && cloned::<V>(
                self@[(i as usize) as int],
                v,
            ))),
            idx matches Some(i) ==> ((i as usize) >= self@.len() ==> (r matches Err(
                VmErrorReason::IndexOutOfBounds(k),
            ) && k == i as usize)),
    {
        match idx {
            None => Err(VmErrorReason::UnexpectedType),
            Some(i) => {
                let k = i as usize;
                match self.get_at(k) {
                    Some(v) => Ok(v),
                    None => Err(VmErrorReason::IndexOutOfBounds(k)),
                }
            },
        }
    }

    /// Writes `val` at index `idx` (`None` where the index is not an integer),
    /// with the rules of `set_at`; the integer is taken as a `usize`.
    pub fn write_index(&mut self, idx: Option<i64>, val: V) -> (r: Result<(), VmErrorReason>)
        ensures
            idx is None ==> (r matches Err(e) && e is UnexpectedType && final(self)@ == old(self)@),
            idx matches Some(i) ==> (set_at_spec(old(self)@, (i as usize) as int, val) matches Some(s)
                ==> r is Ok && final(self)@ == s),
            idx matches Some(i) ==> (set_at_spec(old(self)@, (i as usize) as int, val) is None ==> (r matches Err(
                VmErrorReason::IndexOutOfBounds(k),
            ) && k == i as usize && final(self)@ == old(self)@)),
    {
        match idx {
            None => Err(VmErrorReason::UnexpectedType),
            Some(i) => self.set_at(i as usize, val),
        }
    }
}

/// The capacity that `new_with_capacity` of the `List` type reserves for a
/// requested one: a negative request reserves none.
pub fn capacity_for(requested: i64) -> (r: usize)
    ensures
        requested < 0 ==> r == 0,
        requested >= 0 ==> r == requested as usize,
{
    let c: i64 = if requested < 0 {
        0
    } else {
        requested
    };
    c as usize
}

/// The number of values in a list, as an integer of the virtual machine (the
/// `len` method of `List`).
pub fn length_value<V>(list: &List<V>) -> (r: i64)
    ensures
        r == list@.len() as i64,
{
    list.len() as i64
}

} // verus!
