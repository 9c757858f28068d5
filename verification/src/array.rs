//! Finished, immutable arrays of geometries made of rings.
use std::sync::Arc;

use vstd::prelude::*;

use arrow_buffer::{NullBuffer, NullBufferBuilder};

use crate::buffers::{
    null_buffer_bits, null_buffer_is_valid, null_builder_bits, null_builder_finish, offset_buffer_new, offset_buffer_as_slice, offset_buffer_values,
    ArrowOffsets,
};
use crate::coord::{CoordBuffer, CoordBufferBuilder, CoordType, Dimension};
use crate::geometry::MultiLineString;
use crate::layout::{geom_at, ring_at, Parts, RingsValue};
use crate::metadata::ArrayMetadata;
use crate::offsets::{offsets_wf, OffsetsBuilder};

verus! {

/// The validity bits of `n` slots: all `true` when there is no null buffer.
pub open spec fn validity_bits(validity: Option<NullBuffer>, n: int) -> Seq<bool> {
    match validity {
        Some(nb) => null_buffer_bits(nb),
        None => Seq::new(n as nat, |_i: int| true),
    }
}

/// Geometries made of rings, in the GeoArrow layout: geometry offsets into the rings, ring
/// offsets into the coordinates, the coordinates, and the validity bits (absent when every
/// slot holds a geometry).
pub struct RingArray {
    coords: CoordBuffer,
    geom_offsets: ArrowOffsets,
    ring_offsets: ArrowOffsets,
    validity: Option<NullBuffer>,
    metadata: Arc<ArrayMetadata>,
}

impl View for RingArray {
    type V = Seq<Option<RingsValue>>;

    open spec fn view(&self) -> Seq<Option<RingsValue>> {
        self.parts().decode()
    }
}

impl RingArray {
    /// The four parts, as mathematical values.
    pub closed spec fn parts(self) -> Parts {
        let g = offset_buffer_values(self.geom_offsets);
        Parts {
            geom_offsets: g,
            ring_offsets: offset_buffer_values(self.ring_offsets),
            coords: self.coords@,
            validity: validity_bits(self.validity, g.len() - 1),
        }
    }

    #[verifier::type_invariant]
    closed spec fn inv(self) -> bool {
        self.parts().consistent()
    }

    pub closed spec fn spec_dim(self) -> Dimension {
        self.coords.spec_dim()
    }

    pub closed spec fn spec_coord_type(self) -> CoordType {
        self.coords.spec_coord_type()
    }

    pub closed spec fn spec_metadata(self) -> ArrayMetadata {
        *self.metadata
    }

    /// Puts an array together from parts that fit together.
    pub(crate) fn new(
        coords: CoordBuffer,
        geom_offsets: ArrowOffsets,
        ring_offsets: ArrowOffsets,
        validity: Option<NullBuffer>,
        metadata: Arc<ArrayMetadata>,
    ) -> (r: Self)
        requires
            (Parts {
                geom_offsets: offset_buffer_values(geom_offsets),
                ring_offsets: offset_buffer_values(ring_offsets),
                coords: coords@,
                validity: validity_bits(validity, offset_buffer_values(geom_offsets).len() - 1),
            }).consistent(),
        ensures
            r.parts() == (Parts {
                geom_offsets: offset_buffer_values(geom_offsets),
                ring_offsets: offset_buffer_values(ring_offsets),
                coords: coords@,
                validity: validity_bits(validity, offset_buffer_values(geom_offsets).len() - 1),
            }),
            r.spec_dim() == coords.spec_dim(),
            r.spec_coord_type() == coords.spec_coord_type(),
            r.spec_metadata() == *metadata,
    {
        RingArray { coords, geom_offsets, ring_offsets, validity, metadata }
    }

    /// The number of slots, null ones included.
    pub fn len(&self) -> (r: usize)
        ensures
            r == self@.len(),
    {
        proof {
            use_type_invariant(self);
        }
        offset_buffer_as_slice(&self.geom_offsets).len() - 1
    }

    /// Whether slot `i` holds a geometry.
    pub fn is_valid(&self, i: usize) -> (r: bool)
        requires
            i < self@.len(),
        ensures
            r == self@[i as int] is Some,
    {
        proof {
            use_type_invariant(self);
        }
        match &self.validity {
            None => true,
            Some(nb) => null_buffer_is_valid(nb, i),
        }
    }

    /// The coordinates.
    pub fn coords(&self) -> (r: &CoordBuffer)
        ensures
            r@ == self.parts().coords,
            r.spec_dim() == self.spec_dim(),
            r.spec_coord_type() == self.spec_coord_type(),
    {
        &self.coords
    }

    /// The geometry offsets.
    pub fn geom_offsets(&self) -> (r: &[i32])
        ensures
            r@ == self.parts().geom_offsets,
            offsets_wf(r@),
    {
        proof {
            use_type_invariant(self);
        }
        offset_buffer_as_slice(&self.geom_offsets)
    }

    /// The ring offsets.
    pub fn ring_offsets(&self) -> (r: &[i32])
        ensures
            r@ == self.parts().ring_offsets,
            offsets_wf(r@),
    {
        proof {
            use_type_invariant(self);
        }
        offset_buffer_as_slice(&self.ring_offsets)
    }

    /// The layout of the coordinates.
    pub fn coord_type(&self) -> (r: CoordType)
        ensures
            r == self.spec_coord_type(),
    {
        self.coords.coord_type()
    }

    /// The metadata.
    pub fn metadata(&self) -> (r: Arc<ArrayMetadata>)
        ensures
            *r == self.spec_metadata(),
    {
        self.metadata.clone()
    }

    /// The geometry in slot `i`, its rings in order, or `None` for a null slot.
    pub fn value(&self, i: usize) -> (r: Option<MultiLineString>)
        requires
            i < self@.len(),
        ensures
            r.deep_view() == self@[i as int],
    {
        proof {
            use_type_invariant(self);
        }
        if !self.is_valid(i) {
            return None;
        }
        let ghost p = self.parts();
        let g = offset_buffer_as_slice(&self.geom_offsets);
        let r = offset_buffer_as_slice(&self.ring_offsets);
        let ghost target = geom_at(p.geom_offsets, p.ring_offsets, p.coords, i as int);
        proof {
            assert(p.geom_offsets[i as int] <= p.geom_offsets[i + 1]);
            assert(p.geom_offsets[i + 1] <= p.geom_offsets[p.geom_offsets.len() - 1]);
            assert(0 <= p.geom_offsets[0] <= p.geom_offsets[i as int]);
        }
        let start = g[i] as usize;
        let end = g[i + 1] as usize;
        let mut rings: Vec<Vec<Vec<u64>>> = Vec::new();
        let mut j: usize = start;
        while j < end
            invariant
                start <= j <= end,
                i + 1 < p.geom_offsets.len(),
                start == p.geom_offsets[i as int],
                end == p.geom_offsets[i + 1],
                end <= p.ring_offsets.len() - 1,
                r@ == p.ring_offsets,
                self.parts() == p,
                p.consistent(),
                target == geom_at(p.geom_offsets, p.ring_offsets, p.coords, i as int),
                rings.deep_view() == target.take(j - start),
            decreases end - j,
        {
            proof {
                assert(p.ring_offsets[j as int] <= p.ring_offsets[j + 1]);
                assert(p.ring_offsets[j + 1] <= p.ring_offsets[p.ring_offsets.len() - 1]);
                assert(0 <= p.ring_offsets[0] <= p.ring_offsets[j as int]);
            }
            let cs = r[j] as usize;
            let ce = r[j + 1] as usize;
            let ghost ring = ring_at(p.ring_offsets, p.coords, j as int);
            let mut coords: Vec<Vec<u64>> = Vec::new();
            let mut k: usize = cs;
            while k < ce
                invariant
                    cs <= k <= ce,
                    ce <= p.coords.len(),
                    j + 1 < p.ring_offsets.len(),
                    cs == p.ring_offsets[j as int],
                    ce == p.ring_offsets[j + 1],
                    self.parts() == p,
                    ring == ring_at(p.ring_offsets, p.coords, j as int),
                    coords.deep_view() == ring.take(k - cs),
                decreases ce - k,
            {
                let c = self.coords.coord(k);
                let ghost before = coords.deep_view();
                coords.push(c);
                k += 1;
                proof {
                    assert(c.deep_view() =~= c@);
                    assert(coords.deep_view() =~= before.push(c@));
                    assert(ring.take(k - cs) =~= ring.take(k - 1 - cs).push(ring[k - 1 - cs]));
                }
            }
            let ghost before = rings.deep_view();
            rings.push(coords);
            j += 1;
            proof {
                assert(ring.take(ce - cs) =~= ring);
                assert(rings.deep_view() =~= before.push(ring));
                assert(target[j - 1 - start] == ring);
                assert(target.take(j - start) =~= target.take(j - 1 - start).push(ring));
            }
        }
        proof {
            assert(target.take(end - start) =~= target);
        }
        Some(rings)
    }
}

/// Freezes consistent builder parts into an array that stands for the same geometries.
pub(crate) fn finish_parts(
    coords: CoordBufferBuilder,
    geom_offsets: OffsetsBuilder,
    ring_offsets: OffsetsBuilder,
    validity: NullBufferBuilder,
    metadata: Arc<ArrayMetadata>,
) -> (r: RingArray)
    requires
        (Parts {
            geom_offsets: geom_offsets@,
            ring_offsets: ring_offsets@,
            coords: coords@,
            validity: null_builder_bits(validity),
        }).consistent(),
    ensures
        r.parts() == (Parts {
            geom_offsets: geom_offsets@,
            ring_offsets: ring_offsets@,
            coords: coords@,
            validity: null_builder_bits(validity),
        }),
        r.spec_dim() == coords.spec_dim(),
        r.spec_coord_type() == coords.spec_coord_type(),
        r.spec_metadata() == *metadata,
{
    let ghost bits = null_builder_bits(validity);
    let mut validity = validity;
    let nulls = null_builder_finish(&mut validity);
    let geom_values = geom_offsets.into_offsets();
    let ring_values = ring_offsets.into_offsets();
    let ghost n = geom_values@.len() - 1;
    proof {
        if nulls is None {
            assert(validity_bits(nulls, n) =~= bits);
        }
    }
    let geom_buffer = offset_buffer_new(geom_values);
    let ring_buffer = offset_buffer_new(ring_values);
    RingArray::new(coords.finish(), geom_buffer, ring_buffer, nulls, metadata)
}

/// A finished array of nullable multi line strings. `D` is the number of values per
/// coordinate.
pub struct MultiLineStringArray<const D: usize> {
    inner: RingArray,
}

impl<const D: usize> View for MultiLineStringArray<D> {
    type V = Seq<Option<RingsValue>>;

    open spec fn view(&self) -> Seq<Option<RingsValue>> {
        self.spec_inner()@
    }
}

impl<const D: usize> MultiLineStringArray<D> {
    pub closed spec fn spec_inner(self) -> RingArray {
        self.inner
    }

    pub(crate) fn from_inner(inner: RingArray) -> (r: Self)
        ensures
            r.spec_inner() == inner,
            r@ == inner@,
    {
        MultiLineStringArray { inner }
    }

    /// The parts, the coordinates and the metadata, for reading.
    pub fn inner(&self) -> (r: &RingArray)
        ensures
            *r == self.spec_inner(),
            r@ == self@,
    {
        &self.inner
    }

    /// The number of slots, null ones included.
    pub fn len(&self) -> (r: usize)
        ensures
            r == self@.len(),
    {
        self.inner.len()
    }

    /// Whether slot `i` holds a multi line string.
    pub fn is_valid(&self, i: usize) -> (r: bool)
        requires
            i < self@.len(),
        ensures
            r == self@[i as int] is Some,
    {
        self.inner.is_valid(i)
    }

    /// The multi line string in slot `i`, or `None` for a null slot.
    pub fn value(&self, i: usize) -> (r: Option<MultiLineString>)
        requires
            i < self@.len(),
        ensures
            r.deep_view() == self@[i as int],
    {
        self.inner.value(i)
    }
}

/// A finished array of nullable polygons, each a sequence of rings. `D` is the number of
/// values per coordinate.
pub struct PolygonArray<const D: usize> {
    inner: RingArray,
}

impl<const D: usize> View for PolygonArray<D> {
    type V = Seq<Option<RingsValue>>;

    open spec fn view(&self) -> Seq<Option<RingsValue>> {
        self.spec_inner()@
    }
}

impl<const D: usize> PolygonArray<D> {
    pub closed spec fn spec_inner(self) -> RingArray {
        self.inner
    }

    pub(crate) fn from_inner(inner: RingArray) -> (r: Self)
        ensures
            r.spec_inner() == inner,
            r@ == inner@,
    {
        PolygonArray { inner }
    }

    /// The parts, the coordinates and the metadata, for reading.
    pub fn inner(&self) -> (r: &RingArray)
        ensures
            *r == self.spec_inner(),
            r@ == self@,
    {
        &self.inner
    }

    /// The number of slots, null ones included.
    pub fn len(&self) -> (r: usize)
        ensures
            r == self@.len(),
    {
        self.inner.len()
    }

    /// Whether slot `i` holds a polygon.
    pub fn is_valid(&self, i: usize) -> (r: bool)
        requires
            i < self@.len(),
        ensures
            r == self@[i as int] is Some,
    {
        self.inner.is_valid(i)
    }

    /// The rings of the polygon in slot `i`, or `None` for a null slot.
    pub fn value(&self, i: usize) -> (r: Option<Vec<Vec<Vec<u64>>>>)
        requires
            i < self@.len(),
        ensures
            r.deep_view() == self@[i as int],
    {
        self.inner.value(i)
    }
}

} // verus!
