//! Cursors over positions: the items of one list element ([`ListValue`]),
//! the entries of one map element ([`MapValue`]), and the rows of an array
//! ([`TypedArrayIter`]).
//!
//! A cursor stands for the positions `index..end` that are left to visit;
//! taking from the front advances `index`, taking from the back lowers `end`.

use vstd::prelude::*;

verus! {

/// The positions `index..end`, in order.
pub open spec fn positions(index: usize, end: usize) -> Seq<usize> {
    Seq::new((end - index) as nat, |k: int| (index + k) as usize)
}

/// The items `index..end` of one list element, as positions into the items
/// array; the items left to visit when used as an iterator.
#[derive(Clone, Copy, Debug)]
pub struct ListValue {
    index: usize,
    end: usize,
}

impl View for ListValue {
    type V = Seq<usize>;

    closed spec fn view(&self) -> Seq<usize> {
        positions(self.index, self.end)
    }
}

impl ListValue {
    #[verifier::type_invariant]
    spec fn ordered(self) -> bool {
        self.index <= self.end
    }

    /// The items `index..end`.
    pub fn new(index: usize, end: usize) -> (r: Self)
        requires
            index <= end,
        ensures
            r@ == positions(index, end),
    {
        ListValue { index, end }
    }

    /// The number of items left.
    pub fn len(&self) -> (r: usize)
        ensures
            r == self@.len(),
    {
        proof {
            use_type_invariant(self);
        }
        self.end - self.index
    }

    /// Are there no items left?
    pub fn is_empty(&self) -> (r: bool)
        ensures
            r == (self@.len() == 0),
    {
        proof {
            use_type_invariant(self);
        }
        self.index == self.end
    }

    /// The position of item `i`, or `None` if out of bounds.
    pub fn get(&self, i: usize) -> (r: Option<usize>)
        ensures
            r == if i < self@.len() {
                Some(self@[i as int])
            } else {
                None::<usize>
            },
    {
        proof {
            use_type_invariant(self);
        }
        match self.index.checked_add(i) {
            Some(item) => if item < self.end {
                Some(item)
            } else {
                None
            },
            None => None,
        }
    }

    /// The position of item `i`.
    pub fn value(&self, i: usize) -> (r: usize)
        requires
            i < self@.len(),
        ensures
            r == self@[i as int],
    {
        proof {
            use_type_invariant(self);
        }
        self.index + i
    }

    /// Takes the first item left.
    pub fn next(&mut self) -> (r: Option<usize>)
        ensures
            old(self)@.len() > 0 ==> r == Some(old(self)@[0]) && final(self)@ == old(self)@.skip(1),
            old(self)@.len() == 0 ==> r is None && final(self)@ == old(self)@,
    {
        proof {
            use_type_invariant(&*self);
        }
        if self.index < self.end {
            let value = self.index;
            self.index = self.index + 1;
            assert(self@ =~= old(self)@.skip(1));
            Some(value)
        } else {
            None
        }
    }

    /// Takes the last item left.
    pub fn next_back(&mut self) -> (r: Option<usize>)
        ensures
            old(self)@.len() > 0 ==> r == Some(old(self)@.last()) && final(self)@ == old(self)@.drop_last(),
            old(self)@.len() == 0 ==> r is None && final(self)@ == old(self)@,
    {
        proof {
            use_type_invariant(&*self);
        }
        if self.index < self.end {
            self.end = self.end - 1;
            assert(self@ =~= old(self)@.drop_last());
            Some(self.end)
        } else {
            None
        }
    }

    /// Skips `n` items and takes the next one; when fewer than `n + 1` are
    /// left, takes them all and returns `None`.
    pub fn nth(&mut self, n: usize) -> (r: Option<usize>)
        ensures
            n < old(self)@.len() ==> r == Some(old(self)@[n as int]) && final(self)@ == old(self)@.skip(n + 1),
            n >= old(self)@.len() ==> r is None && final(self)@.len() == 0,
    {
        proof {
            use_type_invariant(&*self);
        }
        match self.index.checked_add(n) {
            Some(target) => if target < self.end {
                self.index = target + 1;
                assert(self@ =~= old(self)@.skip(n + 1));
                return Some(target);
            },
            None => {},
        }
        self.index = self.end;
        None
    }

    /// Skips `n` items from the back and takes the one before them; when
    /// fewer than `n + 1` are left, takes them all and returns `None`.
    pub fn nth_back(&mut self, n: usize) -> (r: Option<usize>)
        ensures
            n < old(self)@.len() ==> r == Some(old(self)@[old(self)@.len() - 1 - n]) && final(self)@
                == old(self)@.take(old(self)@.len() - 1 - n),
            n >= old(self)@.len() ==> r is None && final(self)@.len() == 0,
    {
        proof {
            use_type_invariant(&*self);
        }
        if n < self.end {
            let target = self.end - (n + 1);
            if self.index <= target {
                self.end = target;
                assert(self@ =~= old(self)@.take(old(self)@.len() - 1 - n));
                return Some(target);
            }
        }
        self.end = self.index;
        None
    }

    /// The last item left, if any.
    pub fn last(self) -> (r: Option<usize>)
        ensures
            r == if self@.len() > 0 {
                Some(self@.last())
            } else {
                None::<usize>
            },
    {
        proof {
            use_type_invariant(&self);
        }
        if self.index < self.end {
            Some(self.end - 1)
        } else {
            None
        }
    }

    /// The number of items left.
    pub fn count(self) -> (r: usize)
        ensures
            r == self@.len(),
    {
        self.len()
    }
}

/// The entries `index..end` of one map element, as positions into its keys
/// and values arrays; the entries left to visit.
#[derive(Clone, Copy, Debug)]
pub struct MapValue {
    index: usize,
    end: usize,
}

impl View for MapValue {
    type V = Seq<usize>;

    closed spec fn view(&self) -> Seq<usize> {
        positions(self.index, self.end)
    }
}

impl MapValue {
    #[verifier::type_invariant]
    spec fn ordered(self) -> bool {
        self.index <= self.end
    }

    /// The entries `index..end`.
    pub fn new(index: usize, end: usize) -> (r: Self)
        requires
            index <= end,
        ensures
            r@ == positions(index, end),
    {
        MapValue { index, end }
    }

    /// The number of entries left.
    pub fn len(&self) -> (r: usize)
        ensures
            r == self@.len(),
    {
        proof {
            use_type_invariant(self);
        }
        self.end - self.index
    }

    /// Takes the first entry left.
    pub fn next(&mut self) -> (r: Option<usize>)
        ensures
            old(self)@.len() > 0 ==> r == Some(old(self)@[0]) && final(self)@ == old(self)@.skip(1),
            old(self)@.len() == 0 ==> r is None && final(self)@ == old(self)@,
    {
        proof {
            use_type_invariant(&*self);
        }
        if self.index < self.end {
            let entry = self.index;
            self.index = self.index + 1;
            assert(self@ =~= old(self)@.skip(1));
            Some(entry)
        } else {
            None
        }
    }
}

/// The rows `index..end` of an array left to visit.
#[derive(Clone, Copy, Debug)]
pub struct TypedArrayIter {
    index: usize,
    end: usize,
}

impl View for TypedArrayIter {
    type V = Seq<usize>;

    closed spec fn view(&self) -> Seq<usize> {
        positions(self.index, self.end)
    }
}

impl TypedArrayIter {
    #[verifier::type_invariant]
    spec fn ordered(self) -> bool {
        self.index <= self.end
    }

    /// The rows `0..len`.
    pub fn new(len: usize) -> (r: Self)
        ensures
            r@ == positions(0, len),
    {
        TypedArrayIter { index: 0, end: len }
    }

    /// The number of rows left.
    pub fn len(&self) -> (r: usize)
        ensures
            r == self@.len(),
    {
        proof {
            use_type_invariant(self);
        }
        self.end - self.index
    }

    /// Takes the first row left.
    pub fn next(&mut self) -> (r: Option<usize>)
        ensures
            old(self)@.len() > 0 ==> r == Some(old(self)@[0]) && final(self)@ == old(self)@.skip(1),
            old(self)@.len() == 0 ==> r is None && final(self)@ == old(self)@,
    {
        proof {
            use_type_invariant(&*self);
        }
        if self.index < self.end {
            let row = self.index;
            self.index = self.index + 1;
            assert(self@ =~= old(self)@.skip(1));
            Some(row)
        } else {
            None
        }
    }

    /// Takes the last row left.
    pub fn next_back(&mut self) -> (r: Option<usize>)
        ensures
            old(self)@.len() > 0 ==> r == Some(old(self)@.last()) && final(self)@ == old(self)@.drop_last(),
            old(self)@.len() == 0 ==> r is None && final(self)@ == old(self)@,
    {
        proof {
            use_type_invariant(&*self);
        }
        if self.index < self.end {
            self.end = self.end - 1;
            assert(self@ =~= old(self)@.drop_last());
            Some(self.end)
        } else {
            None
        }
    }

    /// Skips `n` rows and takes the next one; when fewer than `n + 1` are
    /// left, takes them all and returns `None`.
    pub fn nth(&mut self, n: usize) -> (r: Option<usize>)
        ensures
            n < old(self)@.len() ==> r == Some(old(self)@[n as int]) && final(self)@ == old(self)@.skip(n + 1),
            n >= old(self)@.len() ==> r is None && final(self)@.len() == 0,
    {
        proof {
            use_type_invariant(&*self);
        }
        match self.index.checked_add(n) {
            Some(target) => if target < self.end {
                self.index = target + 1;
                assert(self@ =~= old(self)@.skip(n + 1));
                return Some(target);
            },
            None => {},
        }
        self.index = self.end;
        None
    }
    /// The last row left, if any.
    pub fn last(self) -> (r: Option<usize>)
        ensures
            r == if self@.len() > 0 {
                Some(self@.last())
            } else {
                None::<usize>
            },
    {
        proof {
            use_type_invariant(&self);
        }
        if self.index < self.end {
            Some(self.end - 1)
        } else {
            None
        }
    }

    /// The number of rows left.
    pub fn count(self) -> (r: usize)
        ensures
            r == self@.len(),
    {
        self.len()
    }

    /// The number of rows left, exactly: as a lower and an upper bound.
    pub fn size_hint(&self) -> (r: (usize, Option<usize>))
        ensures
            r == (self@.len() as usize, Some(self@.len() as usize)),
    {
        let n = self.len();
        (n, Some(n))
    }
}

} // verus!
