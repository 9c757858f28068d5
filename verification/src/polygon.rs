//! The polygon builder, which shares its layout with the multi line string builder.
use std::sync::Arc;

use vstd::prelude::*;

use arrow_buffer::NullBufferBuilder;

use crate::array::{finish_parts, PolygonArray};
use crate::builder::{check, check_result, parts_of, MultiLineStringBuilder};
use crate::coord::{CoordBufferBuilder, CoordType, Dimension};
use crate::error::{outcome, GeoArrowError};
use crate::layout::{Parts, RingsValue};
use crate::metadata::ArrayMetadata;
use crate::offsets::OffsetsBuilder;

verus! {

/// A growable collection of nullable polygons: geometry offsets into rings, ring offsets
/// into coordinates, the coordinates, and one validity bit per polygon.
///
/// `D` is the number of values per coordinate (2 or 3).
pub struct PolygonBuilder<const D: usize> {
    metadata: Arc<ArrayMetadata>,
    coords: CoordBufferBuilder,
    geom_offsets: OffsetsBuilder,
    ring_offsets: OffsetsBuilder,
    validity: NullBufferBuilder,
}

impl<const D: usize> View for PolygonBuilder<D> {
    type V = Seq<Option<RingsValue>>;

    /// The polygons the parts stand for, one per slot (`None` for a null slot).
    open spec fn view(&self) -> Seq<Option<RingsValue>> {
        self.parts().decode()
    }
}

impl<const D: usize> PolygonBuilder<D> {
    /// The four parts, as mathematical values.
    pub closed spec fn parts(self) -> Parts {
        parts_of(&self.coords, &self.geom_offsets, &self.ring_offsets, &self.validity)
    }

    pub closed spec fn spec_dim(self) -> Dimension {
        self.coords.spec_dim()
    }

    pub closed spec fn spec_coord_type(self) -> CoordType {
        self.coords.spec_coord_type()
    }

    pub closed spec fn spec_metadata(self) -> ArrayMetadata {
        *self.metadata
    }

    pub open spec fn consistent(self) -> bool {
        self.parts().consistent()
    }

    /// Puts a builder together from its parts, checking that they fit together, as
    /// `MultiLineStringBuilder::try_new` does.
    pub fn try_new(
        coords: CoordBufferBuilder,
        geom_offsets: OffsetsBuilder,
        ring_offsets: OffsetsBuilder,
        validity: NullBufferBuilder,
        metadata: Arc<ArrayMetadata>,
    ) -> (r: Result<Self, GeoArrowError>)
        ensures
            check_result(&coords, &geom_offsets, &ring_offsets, &validity, outcome(r)),
            r matches Ok(b) ==> {
                &&& b.parts() == parts_of(&coords, &geom_offsets, &ring_offsets, &validity)
                &&& b.spec_dim() == coords.spec_dim()
                &&& b.spec_coord_type() == coords.spec_coord_type()
                &&& b.spec_metadata() == *metadata
            },
    {
        check(&coords, &geom_offsets, &ring_offsets, &validity)?;
        Ok(PolygonBuilder { coords, geom_offsets, ring_offsets, validity, metadata })
    }

    /// Reads a multi line string builder as a polygon builder: each line string becomes a
    /// ring. The parts must fit together: where they do not, the call would panic, which
    /// `requires` rules out.
    pub fn from_multi_line_string_builder(value: MultiLineStringBuilder<D>) -> (r: Self)
        requires
            value.consistent(),
        ensures
            r.parts() == value.parts(),
            r@ == value@,
            r.spec_dim() == value.spec_dim(),
            r.spec_coord_type() == value.spec_coord_type(),
            r.spec_metadata() == value.spec_metadata(),
    {
        let metadata = value.metadata();
        let (coords, geom_offsets, ring_offsets, validity) = value.into_inner();
        Self::try_new(coords, geom_offsets, ring_offsets, validity, metadata).unwrap()
    }

    /// The number of slots, null ones included.
    pub fn len(&self) -> (r: usize)
        ensures
            r == self@.len(),
    {
        self.geom_offsets.len_proxy()
    }

    /// Freezes the builder into an array holding the same polygons. The parts must fit
    /// together: where they do not, the call would panic, which `requires` rules out.
    pub fn finish(self) -> (r: PolygonArray<D>)
        requires
            self.consistent(),
        ensures
            r@ == self@,
            r.spec_inner().parts() == self.parts(),
            r.spec_inner().spec_dim() == self.spec_dim(),
            r.spec_inner().spec_coord_type() == self.spec_coord_type(),
            r.spec_inner().spec_metadata() == self.spec_metadata(),
    {
        let PolygonBuilder { metadata, coords, geom_offsets, ring_offsets, validity } = self;
        PolygonArray::from_inner(finish_parts(coords, geom_offsets, ring_offsets, validity, metadata))
    }
}

} // verus!
