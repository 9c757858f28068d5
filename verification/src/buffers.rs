//! The Arrow buffers that the builders and arrays hold, and what is assumed of them.
use vstd::prelude::*;

use arrow_buffer::{NullBuffer, NullBufferBuilder, OffsetBuffer, ScalarBuffer};

verus! {

#[verifier::external_type_specification]
#[verifier::external_body]
pub struct ExNullBufferBuilder(NullBufferBuilder);

#[verifier::external_type_specification]
#[verifier::external_body]
pub struct ExNullBuffer(NullBuffer);

/// An Arrow `OffsetBuffer<i32>`. Verus does not take a declaration of the generic
/// `OffsetBuffer` itself (its bound names an outside trait), so it is held here.
#[verifier::external_body]
pub struct ArrowOffsets {
    inner: OffsetBuffer<i32>,
}

/// The validity bits appended to a `NullBufferBuilder` since it was made or last finished
/// (`true`: the slot holds a value; `false`: the slot is null).
pub uninterp spec fn null_builder_bits(b: NullBufferBuilder) -> Seq<bool>;

/// The validity bits of a `NullBuffer`, one per slot.
pub uninterp spec fn null_buffer_bits(b: NullBuffer) -> Seq<bool>;

/// The offsets that the `OffsetBuffer<i32>` inside an `ArrowOffsets` holds.
pub uninterp spec fn offset_buffer_values(b: ArrowOffsets) -> Seq<i32>;

/// Calls `NullBufferBuilder::new`, which makes a builder that holds no bits yet;
/// `capacity` only sizes the allocation.
#[verifier::external_body]
pub(crate) fn null_builder_new(capacity: usize) -> (r: NullBufferBuilder)
    ensures
        null_builder_bits(r) == Seq::<bool>::empty(),
{
    NullBufferBuilder::new(capacity)
}

/// Calls `NullBufferBuilder::append`, which adds the bit `not_null` after the bits already there.
#[verifier::external_body]
pub(crate) fn null_builder_append(b: &mut NullBufferBuilder, not_null: bool)
    ensures
        null_builder_bits(*final(b)) == null_builder_bits(*old(b)).push(not_null),
{
    b.append(not_null)
}

/// Calls `NullBufferBuilder::len`, the number of bits appended.
#[verifier::external_body]
pub(crate) fn null_builder_len(b: &NullBufferBuilder) -> (r: usize)
    ensures
        r == null_builder_bits(*b).len(),
{
    b.len()
}

/// Calls `NullBufferBuilder::finish`, which empties the builder and hands its bits out as a
/// `NullBuffer`. It hands out `None` only when every bit was `true` (the builder had not
/// materialised a bitmap, which it does on the first `false`). When the bits are all `true`
/// it may still hand out a buffer (a builder made from a bitmap); which of the two
/// happens is left unsaid.
#[verifier::external_body]
pub(crate) fn null_builder_finish(b: &mut NullBufferBuilder) -> (r: Option<NullBuffer>)
    ensures
        null_builder_bits(*final(b)) == Seq::<bool>::empty(),
        r is None ==> forall|i: int|
            0 <= i < null_builder_bits(*old(b)).len() ==> #[trigger] null_builder_bits(*old(b))[i],
        r matches Some(nb) ==> null_buffer_bits(nb) == null_builder_bits(*old(b)),
{
    b.finish()
}

/// Calls `NullBuffer::is_valid`, the bit of slot `i`; it panics past the end, which `requires` rules out.
#[verifier::external_body]
pub(crate) fn null_buffer_is_valid(b: &NullBuffer, i: usize) -> (r: bool)
    requires
        i < null_buffer_bits(*b).len(),
    ensures
        r == null_buffer_bits(*b)[i as int],
{
    b.is_valid(i)
}

/// Calls `OffsetBuffer::new` on the offsets of `v` (turned into a `ScalarBuffer`, which keeps
/// them as they are). `OffsetBuffer::new` panics unless the offsets are non-empty, start at
/// or above zero and never decrease, which `requires` asks for.
#[verifier::external_body]
pub(crate) fn offset_buffer_new(v: Vec<i32>) -> (r: ArrowOffsets)
    requires
        v@.len() >= 1,
        v@[0] >= 0,
        forall|i: int, j: int| 0 <= i <= j < v@.len() ==> v@[i] <= v@[j],
    ensures
        offset_buffer_values(r) == v@,
{
    ArrowOffsets { inner: OffsetBuffer::new(ScalarBuffer::from(v)) }
}

/// Calls `AsRef::as_ref` on an `OffsetBuffer<i32>`, which shows its offsets as a slice.
#[verifier::external_body]
pub(crate) fn offset_buffer_as_slice(b: &ArrowOffsets) -> (r: &[i32])
    ensures
        r@ == offset_buffer_values(*b),
{
    b.inner.as_ref()
}

} // verus!
