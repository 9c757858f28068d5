use vstd::prelude::*;

verus! {

/// Calls `Vec::reserve_exact`, which changes only the capacity of the vector:
/// its contents stay as they were. It panics when the capacity asked for (the length plus
/// `additional`) overflows or exceeds `isize::MAX` bytes, which `requires` rules out.
#[verifier::external_body]
pub(crate) fn vec_reserve_exact<T>(v: &mut Vec<T>, additional: usize)
    requires
        old(v)@.len() + additional <= usize::MAX,
        (old(v)@.len() + additional) * vstd::layout::size_of::<T>() <= isize::MAX,
    ensures
        final(v)@ == old(v)@,
{
    v.reserve_exact(additional)
}

} // verus!
