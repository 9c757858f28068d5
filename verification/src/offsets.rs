use vstd::prelude::*;

use crate::error::GeoArrowError;
use crate::std_wrappers::vec_reserve_exact;

verus! {

/// A valid offset sequence: it starts at 0 and never decreases.
pub open spec fn offsets_wf(s: Seq<i32>) -> bool {
    &&& s.len() >= 1
    &&& s[0] == 0
    &&& forall|i: int, j: int| 0 <= i <= j < s.len() ==> s[i] <= s[j]
}

/// The last offset, as a mathematical integer.
pub open spec fn last_offset(s: Seq<i32>) -> int {
    s[s.len() - 1] as int
}

/// A growable sequence of `i32` offsets that starts at 0 and never decreases.
pub struct OffsetsBuilder {
    offsets: Vec<i32>,
}

impl View for OffsetsBuilder {
    type V = Seq<i32>;

    closed spec fn view(&self) -> Seq<i32> {
        self.offsets@
    }
}

impl OffsetsBuilder {
    #[verifier::type_invariant]
    pub open spec fn wf(self) -> bool {
        offsets_wf(self@)
    }

    /// The number of ranges that the offsets delimit.
    pub open spec fn spec_len_proxy(self) -> int {
        self@.len() - 1
    }

    /// The last offset.
    pub open spec fn spec_last(self) -> int {
        last_offset(self@)
    }

    /// Creates an offset sequence holding the single offset 0.
    pub fn new() -> (r: Self)
        ensures
            r@ == seq![0i32],
    {
        let mut offsets: Vec<i32> = Vec::new();
        offsets.push(0);
        OffsetsBuilder { offsets }
    }

    /// Creates an offset sequence holding the single offset 0, with room for
    /// `capacity` more offsets.
    pub fn with_capacity(capacity: usize) -> (r: Self)
        ensures
            r@ == seq![0i32],
    {
        let mut offsets: Vec<i32> = Vec::with_capacity(capacity.saturating_add(1));
        offsets.push(0);
        OffsetsBuilder { offsets }
    }

    /// Takes the offsets out, leaving the single offset 0 behind.
    fn take_offsets(&mut self) -> (v: Vec<i32>)
        ensures
            v@ == old(self)@,
            offsets_wf(v@),
            final(self)@ == seq![0i32],
    {
        let mut fresh = OffsetsBuilder::new();
        std::mem::swap(self, &mut fresh);
        proof {
            use_type_invariant(&fresh);
        }
        let OffsetsBuilder { offsets } = fresh;
        offsets
    }

    /// The last offset.
    pub fn last(&self) -> (r: i32)
        ensures
            r == self.spec_last(),
            r >= 0,
    {
        proof {
            use_type_invariant(self);
        }
        self.offsets[self.offsets.len() - 1]
    }

    /// The number of ranges that the offsets delimit (one less than the number of offsets).
    pub fn len_proxy(&self) -> (r: usize)
        ensures
            r == self.spec_len_proxy(),
    {
        proof {
            use_type_invariant(self);
        }
        self.offsets.len() - 1
    }

    /// Appends a range of `length` items: the new last offset is the old one plus `length`.
    ///
    /// Errors, leaving the offsets unchanged, iff the new last offset does not fit in an `i32`.
    pub fn try_push_usize(&mut self, length: usize) -> (r: Result<(), GeoArrowError>)
        ensures
            old(self).spec_last() + length <= i32::MAX ==> {
                &&& r is Ok
                &&& final(self)@ == old(self)@.push((old(self).spec_last() + length) as i32)
            },
            old(self).spec_last() + length > i32::MAX ==> {
                &&& r matches Err(GeoArrowError::Overflow)
                &&& final(self)@ == old(self)@
            },
    {
        proof {
            use_type_invariant(&*self);
        }
        let last = self.offsets[self.offsets.len() - 1];
        let room: i32 = i32::MAX - last;
        if length > room as usize {
            return Err(GeoArrowError::Overflow);
        }
        let next: i32 = last + length as i32;
        let mut offsets = self.take_offsets();
        offsets.push(next);
        *self = OffsetsBuilder { offsets };
        Ok(())
    }

    /// Appends `additional` empty ranges: the last offset repeated `additional` times.
    pub fn extend_constant(&mut self, additional: usize)
        ensures
            final(self)@ == old(self)@ + Seq::new(additional as nat, |_i: int| old(self).spec_last() as i32),
    {
        proof {
            use_type_invariant(&*self);
        }
        let last = self.offsets[self.offsets.len() - 1];
        let mut offsets = self.take_offsets();
        let ghost start = offsets@;
        let mut i: usize = 0;
        while i < additional
            invariant
                i <= additional,
                start.len() >= 1,
                last == start[start.len() - 1],
                offsets_wf(start),
                offsets@ == start + Seq::new(i as nat, |_k: int| last),
            decreases additional - i,
        {
            offsets.push(last);
            i += 1;
            assert(offsets@ =~= start + Seq::new(i as nat, |_k: int| last));
        }
        assert(offsets_wf(offsets@));
        *self = OffsetsBuilder { offsets };
    }

    /// Reserves room for at least `additional` more offsets.
    pub fn reserve(&mut self, additional: usize)
        ensures
            final(self)@ == old(self)@,
    {
        let mut offsets = self.take_offsets();
        offsets.reserve(additional);
        *self = OffsetsBuilder { offsets };
    }

    /// Reserves room for exactly `additional` more offsets. The room must fit in `isize::MAX`
    /// bytes: where it does not, the call would panic, which `requires` rules out.
    pub fn reserve_exact(&mut self, additional: usize)
        requires
            (old(self)@.len() + additional) * 4 <= isize::MAX,
        ensures
            final(self)@ == old(self)@,
    {
        let mut offsets = self.take_offsets();
        vec_reserve_exact(&mut offsets, additional);
        *self = OffsetsBuilder { offsets };
    }

    /// The offsets, in order.
    pub fn into_offsets(self) -> (r: Vec<i32>)
        ensures
            r@ == self@,
            offsets_wf(r@),
    {
        proof {
            use_type_invariant(&self);
        }
        self.offsets
    }
}

} // verus!
