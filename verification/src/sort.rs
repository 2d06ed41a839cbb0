//! A selection sort that can be interrupted: every step moves the smallest
//! byte that is not yet in place to the front of the unsorted part. If the
//! deadline is missed, the partially sorted bytes are the partial result.

use crate::interruptable::{Interruptable, Status};
use vstd::prelude::*;

verus! {

/// The abstract state of a sort: the bytes, and how many of them the steps
/// taken so far have put in place.
pub struct SortState {
    pub data: Seq<u8>,
    pub idx: nat,
}

/// Whether the bytes of `s` are in ascending order.
pub open spec fn sorted(s: Seq<u8>) -> bool {
    forall|i: int, j: int| 0 <= i <= j < s.len() ==> s[i] <= s[j]
}

/// Whether `m` is the place of the first smallest byte of `s` from `from` on.
pub open spec fn is_first_min(s: Seq<u8>, from: nat, m: nat) -> bool {
    &&& from <= m < s.len()
    &&& forall|j: int| from <= j < s.len() ==> s[m as int] <= s[j]
    &&& forall|j: int| from <= j < m ==> s[m as int] < s[j]
}

/// The place of the first smallest byte of `s` from `from` on.
pub open spec fn first_min(s: Seq<u8>, from: nat) -> nat {
    choose|m: nat| is_first_min(s, from, m)
}

/// The sequence `s` with the bytes at `i` and `j` exchanged.
pub open spec fn swapped(s: Seq<u8>, i: nat, j: nat) -> Seq<u8> {
    s.update(i as int, s[j as int]).update(j as int, s[i as int])
}

/// One pass of selection sort: the first smallest byte of the unsorted part
/// changes places with the byte at its front. A sort with nothing left to
/// place stays as it is.
pub open spec fn sort_step(s: SortState) -> SortState {
    if s.idx < s.data.len() {
        SortState { data: swapped(s.data, s.idx, first_min(s.data, s.idx)), idx: s.idx + 1 }
    } else {
        s
    }
}

/// Whether the first `s.idx` bytes are in place: none of them is larger than
/// a byte that follows it.
pub open spec fn prefix_in_place(s: SortState) -> bool {
    &&& s.idx <= s.data.len()
    &&& forall|i: int, j: int| 0 <= i < s.idx && i <= j < s.data.len() ==> s.data[i] <= s.data[j]
}

/// There is one first smallest byte only.
pub proof fn lemma_first_min_unique(s: Seq<u8>, from: nat, m: nat)
    requires
        is_first_min(s, from, m),
    ensures
        first_min(s, from) == m,
{
    let chosen = first_min(s, from);
    assert(is_first_min(s, from, chosen));
    if chosen < m {
        assert(s[m as int] < s[chosen as int]);
    }
    if m < chosen {
        assert(s[chosen as int] < s[m as int]);
    }
}

/// Whether `count` is the number of bytes at the front of `s` up to the first
/// one that is followed by a smaller byte, or by none.
pub open spec fn is_leading_ascents(s: Seq<u8>, count: nat) -> bool {
    &&& forall|i: int| 0 <= i < count ==> i + 1 < s.len() && s[i] <= #[trigger] s[i + 1]
    &&& !(count + 1 < s.len() && s[count as int] <= s[count as int + 1])
}

/// Counts the bytes at the front of a partial result that are followed by a
/// byte that is no smaller: so many places at the least are in ascending
/// order.
pub fn leading_ascents(bytes: &Vec<u8>) -> (count: usize)
    ensures
        is_leading_ascents(bytes@, count as nat),
{
    if bytes.len() < 2 {
        return 0;
    }
    let last: usize = bytes.len() - 1;
    let mut count: usize = 0;
    while count < last && bytes[count] <= bytes[count + 1]
        invariant
            last + 1 == bytes.len(),
            count <= last,
            forall|i: int| 0 <= i < count ==> i + 1 < bytes@.len() && bytes@[i] <= #[trigger] bytes@[i + 1],
        decreases last - count,
    {
        count += 1;
    }
    count
}

/// Sorting implemented as an `Interruptable`.
pub struct Sort {
    data: Vec<u8>,
    idx: usize,
}

impl Sort {
    /// A sort of `data` that has not taken a step yet.
    pub fn new(data: Vec<u8>) -> (sort: Self)
        ensures
            sort.inv(),
            sort.state() == (SortState { data: data@, idx: 0 }),
    {
        Sort { data, idx: 0 }
    }

    /// Finds the first smallest byte of the unsorted part.
    fn first_min_index(&self) -> (m: usize)
        requires
            self.idx < self.data.len(),
        ensures
            is_first_min(self.data@, self.idx as nat, m as nat),
    {
        let mut m: usize = self.idx;
        let mut j: usize = self.idx + 1;
        while j < self.data.len()
            invariant
                self.idx <= m < j <= self.data.len(),
                forall|i: int| self.idx <= i < j ==> self.data@[m as int] <= self.data@[i],
                forall|i: int| self.idx <= i < m ==> self.data@[m as int] < self.data@[i],
            decreases self.data.len() - j,
        {
            if self.data[j] < self.data[m] {
                m = j;
            }
            j += 1;
        }
        m
    }

    /// Performs one pass of selection sort.
    fn sorting_step(&mut self)
        requires
            old(self).inv(),
            old(self).idx < old(self).data.len(),
        ensures
            final(self).inv(),
            final(self).state() == sort_step(old(self).state()),
            final(self).data.len() == old(self).data.len(),
            final(self).idx == old(self).idx + 1,
    {
        let min: usize = self.first_min_index();
        proof {
            lemma_first_min_unique(self.data@, self.idx as nat, min as nat);
        }
        let ghost before = self.data@;
        let front: u8 = self.data[self.idx];
        let smallest: u8 = self.data[min];
        self.data.set(self.idx, smallest);
        self.data.set(min, front);
        assert(self.data@ =~= swapped(before, self.idx as nat, min as nat));
        self.idx += 1;
        assert forall|i: int, j: int| 0 <= i < self.idx && i <= j < self.data.len() implies self.data@[i]
            <= self.data@[j] by {
            let origin = if j == self.idx - 1 {
                min as int
            } else if j == min {
                self.idx - 1
            } else {
                j
            };
            assert(self.data@[j] == before[origin]);
            if i < self.idx - 1 {
                assert(self.data@[i] == before[i]);
            } else {
                assert(self.data@[i] == before[min as int]);
            }
        }
    }

    /// Tells whether the bytes are in ascending order.
    fn is_sorted(&self) -> (ascending: bool)
        ensures
            ascending == sorted(self.data@),
    {
        let mut i: usize = 1;
        while i < self.data.len()
            invariant
                1 <= i,
                forall|a: int, b: int| 0 <= a <= b < i && b < self.data.len() ==> self.data@[a] <= self.data@[b],
            decreases self.data.len() - i,
        {
            if self.data[i - 1] > self.data[i] {
                return false;
            }
            i += 1;
        }
        true
    }
}

impl Interruptable for Sort {
    type Output = Vec<u8>;

    type State = SortState;

    closed spec fn state(&self) -> SortState {
        SortState { data: self.data@, idx: self.idx as nat }
    }

    open spec fn inv(&self) -> bool {
        prefix_in_place(self.state())
    }

    open spec fn status_of(s: SortState) -> Status<Seq<u8>> {
        let stepped = sort_step(s);
        if sorted(stepped.data) {
            Status::Done(stepped.data)
        } else {
            Status::Pending
        }
    }

    open spec fn next(s: SortState) -> SortState {
        sort_step(s)
    }

    open spec fn partial_of(s: SortState) -> Option<Seq<u8>> {
        Some(s.data)
    }

    open spec fn remaining(s: SortState) -> nat {
        (s.data.len() - s.idx) as nat
    }

    fn poll(&mut self) -> (status: Status<Vec<u8>>) {
        if self.idx < self.data.len() {
            self.sorting_step();
        } else {
            assert(sorted(self.data@));
        }
        if self.is_sorted() {
            Status::Done(self.data.clone())
        } else {
            Status::Pending
        }
    }

    /// The partial result of the sort is just the bytes it is working on.
    fn partial_result(&self) -> (partial: Option<Vec<u8>>) {
        Some(self.data.clone())
    }
}

} // verus!
