//! The builder of multi line string arrays.
use std::sync::Arc;

use vstd::prelude::*;

use arrow_buffer::NullBufferBuilder;

use crate::array::{finish_parts, MultiLineStringArray};
use crate::buffers::{null_builder_append, null_builder_bits, null_builder_len, null_builder_new};
use crate::capacity::{all_line_kind, geometry_line_slots, MultiLineStringCapacity};
use crate::coord::{coord_room, dimension_of, CoordBufferBuilder, CoordType, Dimension};
use crate::error::{incorrect_type_error, incorrect_type_message, outcome, GeoArrowError};
use crate::geometry::{
    as_present, geometry_slot, geometry_slots, lemma_rings_of_total, lemma_slots_sizes,
    line_fits_dim, lines_fit_dim, multi_line_string_slot, multi_line_string_slots, ring_of,
    rings_of, slots_fit_dim, Coord, Geometry, LineString, MultiLineString,
};
use crate::layout::{
    flatten, lemma_flatten_take_monotone, lemma_flatten_take_step, lemma_push_all,
    lemma_push_parts, lemma_push_parts_ends, lemma_sums_take_monotone, lemma_take_step, push_all,
    push_parts, ring_ends, slots_fit, sum_coords, sum_rings, total_coords, Parts, RingsValue,
};
use crate::metadata::ArrayMetadata;
use crate::offsets::{last_offset, OffsetsBuilder};

verus! {

/// A growable collection of nullable multi line strings, laid out as GeoArrow lays them out:
/// geometry offsets into line strings, line-string offsets into coordinates, the
/// coordinates, and one validity bit per geometry.
///
/// `D` is the number of values per coordinate (2 or 3).
pub struct MultiLineStringBuilder<const D: usize> {
    metadata: Arc<ArrayMetadata>,
    coords: CoordBufferBuilder,
    /// Offsets into the line strings where each geometry starts.
    geom_offsets: OffsetsBuilder,
    /// Offsets into the coordinates where each line string starts.
    ring_offsets: OffsetsBuilder,
    /// Validity is only defined at the geometry level.
    validity: NullBufferBuilder,
}

/// The low-level parts of a builder: coordinates, geometry offsets, line-string offsets
/// and validity.
pub type MultiLineStringInner = (CoordBufferBuilder, OffsetsBuilder, OffsetsBuilder, NullBufferBuilder);

/// The parts of a builder, as mathematical values.
pub open spec fn parts_of(
    coords: &CoordBufferBuilder,
    geom_offsets: &OffsetsBuilder,
    ring_offsets: &OffsetsBuilder,
    validity: &NullBufferBuilder,
) -> Parts {
    Parts {
        geom_offsets: geom_offsets@,
        ring_offsets: ring_offsets@,
        coords: coords@,
        validity: null_builder_bits(*validity),
    }
}

/// What `check` answers for the parts: `Ok` iff they fit together, else the error of the
/// first test that fails.
pub open spec fn check_result(
    coords: &CoordBufferBuilder,
    geom_offsets: &OffsetsBuilder,
    ring_offsets: &OffsetsBuilder,
    validity: &NullBufferBuilder,
    r: Result<(), GeoArrowError>,
) -> bool {
    let p = parts_of(coords, geom_offsets, ring_offsets, validity);
    &&& p.validity.len() != p.geom_offsets.len() - 1 ==> (r matches Err(GeoArrowError::General(m))
        && m@ == "validity mask length must match the number of values"@)
    &&& p.validity.len() == p.geom_offsets.len() - 1 && last_offset(p.ring_offsets)
        != p.coords.len() ==> (r matches Err(GeoArrowError::General(m)) && m@
        == "largest ring offset must match coords length"@)
    &&& p.validity.len() == p.geom_offsets.len() - 1 && last_offset(p.ring_offsets)
        == p.coords.len() && last_offset(p.geom_offsets) != p.ring_offsets.len() - 1 ==> (r matches Err(
        GeoArrowError::General(m),
    ) && m@ == "largest geometry offset must match ring offsets length"@)
    &&& r is Ok <==> p.consistent()
}

/// Checks that builder parts fit together: one validity bit per geometry, the largest
/// line-string offset equal to the number of coordinates, and the largest geometry offset
/// equal to the number of line strings; in that order.
pub fn check(
    coords: &CoordBufferBuilder,
    geom_offsets: &OffsetsBuilder,
    ring_offsets: &OffsetsBuilder,
    validity: &NullBufferBuilder,
) -> (r: Result<(), GeoArrowError>)
    ensures
        check_result(coords, geom_offsets, ring_offsets, validity, r),
{
    proof {
        use_type_invariant(geom_offsets);
        use_type_invariant(ring_offsets);
    }
    if null_builder_len(validity) != geom_offsets.len_proxy() {
        return Err(
            crate::error::general_error("validity mask length must match the number of values"),
        );
    }
    if ring_offsets.last() as usize != coords.len() {
        return Err(crate::error::general_error("largest ring offset must match coords length"));
    }
    if geom_offsets.last() as usize != ring_offsets.len_proxy() {
        return Err(
            crate::error::general_error("largest geometry offset must match ring offsets length"),
        );
    }
    Ok(())
}

/// The geometries `gs` can all be pushed after a last geometry offset of `geom_end`: each is
/// null, a line string or a multi line string, and the geometry offsets fit in an `i32`.
pub open spec fn accepts(geom_end: int, gs: Seq<Option<Geometry>>, d: Dimension) -> bool {
    &&& all_line_kind(gs)
    &&& geom_end + sum_rings(geometry_slots(gs, d)) <= i32::MAX
}

/// How many of the geometries `gs`, from the first, can be pushed one after another after a
/// last geometry offset of `geom_end`.
pub open spec fn accepted_len(geom_end: int, gs: Seq<Option<Geometry>>, d: Dimension) -> nat
    decreases gs.len(),
{
    if gs.len() == 0 || accepts(geom_end, gs, d) {
        gs.len()
    } else {
        accepted_len(geom_end, gs.drop_last(), d)
    }
}

/// What can be pushed, its prefixes can too.
proof fn lemma_accepts_prefix(ge: int, gs: Seq<Option<Geometry>>, d: Dimension, j: int)
    requires
        accepts(ge, gs, d),
        0 <= j <= gs.len(),
    ensures
        accepts(ge, gs.take(j), d),
{
    assert(geometry_slots(gs.take(j), d) =~= geometry_slots(gs, d).take(j));
    lemma_sums_take_monotone(geometry_slots(gs, d), j);
    assert forall|i: int| 0 <= i < j implies (#[trigger] gs.take(j)[i] matches Some(g)
        ==> g.is_line_kind()) by {
        assert(gs.take(j)[i] == gs[i]);
    }
}

/// Where the first `i` can be pushed, at least `i` are.
proof fn lemma_accepted_len_at_least(ge: int, gs: Seq<Option<Geometry>>, d: Dimension, i: int)
    requires
        0 <= i <= gs.len(),
        accepts(ge, gs.take(i), d),
    ensures
        i <= accepted_len(ge, gs, d) <= gs.len(),
    decreases gs.len(),
{
    if gs.len() > 0 && !accepts(ge, gs, d) {
        if i == gs.len() {
            assert(gs.take(i) =~= gs);
        } else {
            assert(gs.drop_last().take(i) =~= gs.take(i));
            lemma_accepted_len_at_least(ge, gs.drop_last(), d, i);
        }
    }
}

/// Where the first `k` can be pushed and the first `k + 1` cannot, exactly `k` are.
proof fn lemma_accepted_len_stop(ge: int, gs: Seq<Option<Geometry>>, d: Dimension, k: int)
    requires
        0 <= k < gs.len(),
        accepts(ge, gs.take(k), d),
        !accepts(ge, gs.take(k + 1), d),
    ensures
        accepted_len(ge, gs, d) == k,
    decreases gs.len(),
{
    if accepts(ge, gs, d) {
        lemma_accepts_prefix(ge, gs, d, k + 1);
    }
    let dl = gs.drop_last();
    if gs.len() == k + 1 {
        assert(dl =~= gs.take(k));
        assert(gs.take(k + 1) =~= gs);
        assert(!accepts(ge, gs, d));
        assert(accepted_len(ge, dl, d) == k);
    } else {
        assert(dl.take(k) =~= gs.take(k));
        assert(dl.take(k + 1) =~= gs.take(k + 1));
        lemma_accepted_len_stop(ge, dl, d, k);
    }
}

impl<const D: usize> View for MultiLineStringBuilder<D> {
    type V = Seq<Option<RingsValue>>;

    /// The geometries the parts stand for, one per slot (`None` for a null slot).
    open spec fn view(&self) -> Seq<Option<RingsValue>> {
        self.parts().decode()
    }
}

impl<const D: usize> MultiLineStringBuilder<D> {
    /// The four parts, as mathematical values.
    pub closed spec fn parts(self) -> Parts {
        Parts {
            geom_offsets: self.geom_offsets@,
            ring_offsets: self.ring_offsets@,
            coords: self.coords@,
            validity: null_builder_bits(self.validity),
        }
    }

    /// The dimension of the coordinates held.
    pub closed spec fn spec_dim(self) -> Dimension {
        self.coords.spec_dim()
    }

    /// The layout of the coordinates held.
    pub closed spec fn spec_coord_type(self) -> CoordType {
        self.coords.spec_coord_type()
    }

    /// The metadata.
    pub closed spec fn spec_metadata(self) -> ArrayMetadata {
        *self.metadata
    }

    /// The parts fit together (see `layout_consistent`). Everything but the raw pushes
    /// (`try_push_geom_offset`, `try_push_ring_offset`, `push_coord`) keeps this.
    pub open spec fn consistent(self) -> bool {
        self.parts().consistent()
    }

    /// The same dimension, layout and metadata.
    pub open spec fn same_settings(self, other: Self) -> bool {
        &&& self.spec_dim() == other.spec_dim()
        &&& self.spec_coord_type() == other.spec_coord_type()
        &&& self.spec_metadata() == other.spec_metadata()
    }

    /// The last geometry offset: the number of line strings the geometries cover.
    pub open spec fn spec_geom_end(self) -> int {
        last_offset(self.parts().geom_offsets)
    }

    /// The last line-string offset: the number of coordinates the line strings cover.
    pub open spec fn spec_ring_end(self) -> int {
        last_offset(self.parts().ring_offsets)
    }

    /// An empty builder with room for the given numbers of coordinates, line strings and
    /// geometries, coordinates laid out as `coord_type`.
    pub fn with_capacity_and_options(
        capacity: MultiLineStringCapacity,
        coord_type: CoordType,
        metadata: Arc<ArrayMetadata>,
    ) -> (r: Self)
        requires
            D == 2 || D == 3,
        ensures
            r@ == Seq::<Option<RingsValue>>::empty(),
            r.parts() == Parts::empty(),
            r.consistent(),
            r.spec_dim().spec_size() == D,
            r.spec_coord_type() == coord_type,
            r.spec_metadata() == *metadata,
    {
        let dim = Dimension::try_from_size(D).unwrap();
        let coords = CoordBufferBuilder::with_capacity(capacity.coord_capacity, coord_type, dim);
        let r = MultiLineStringBuilder {
            coords,
            geom_offsets: OffsetsBuilder::with_capacity(capacity.geom_capacity),
            ring_offsets: OffsetsBuilder::with_capacity(capacity.ring_capacity),
            validity: null_builder_new(capacity.geom_capacity),
            metadata,
        };
        assert(r@ =~= Seq::<Option<RingsValue>>::empty());
        assert(r.parts() =~= Parts::empty());
        r
    }

    /// An empty builder, coordinates laid out as `coord_type`.
    pub fn new_with_options(coord_type: CoordType, metadata: Arc<ArrayMetadata>) -> (r: Self)
        requires
            D == 2 || D == 3,
        ensures
            r@ == Seq::<Option<RingsValue>>::empty(),
            r.parts() == Parts::empty(),
            r.consistent(),
            r.spec_dim().spec_size() == D,
            r.spec_coord_type() == coord_type,
            r.spec_metadata() == *metadata,
    {
        Self::with_capacity_and_options(MultiLineStringCapacity::new_empty(), coord_type, metadata)
    }

    /// An empty builder with interleaved coordinates and empty metadata.
    pub fn new() -> (r: Self)
        requires
            D == 2 || D == 3,
        ensures
            r@ == Seq::<Option<RingsValue>>::empty(),
            r.parts() == Parts::empty(),
            r.consistent(),
            r.spec_dim().spec_size() == D,
            r.spec_coord_type() == CoordType::Interleaved,
            r.spec_metadata().crs is None,
            r.spec_metadata().edges is None,
    {
        Self::new_with_options(CoordType::default(), Arc::new(ArrayMetadata::default()))
    }

    /// An empty builder with room for the given numbers of coordinates, line strings and
    /// geometries, with interleaved coordinates and empty metadata.
    pub fn with_capacity(capacity: MultiLineStringCapacity) -> (r: Self)
        requires
            D == 2 || D == 3,
        ensures
            r@ == Seq::<Option<RingsValue>>::empty(),
            r.parts() == Parts::empty(),
            r.consistent(),
            r.spec_dim().spec_size() == D,
            r.spec_coord_type() == CoordType::Interleaved,
            r.spec_metadata().crs is None,
            r.spec_metadata().edges is None,
    {
        Self::with_capacity_and_options(
            capacity,
            CoordType::default(),
            Arc::new(ArrayMetadata::default()),
        )
    }

    /// Appends a null slot. Only the geometry offsets grow (by an empty range): the next
    /// geometry starts at the same line string.
    pub(crate) fn push_null(&mut self)
        ensures
            final(self).parts() == push_parts(old(self).parts(), None),
            final(self).same_settings(*old(self)),
    {
        proof {
            use_type_invariant(&self.geom_offsets);
        }
        let ghost p0 = self.parts();
        self.geom_offsets.extend_constant(1);
        null_builder_append(&mut self.validity, false);
        proof {
            let p1 = push_parts(p0, None);
            assert(self.geom_offsets@ =~= p1.geom_offsets);
            assert(p0.ring_offsets + ring_ends(last_offset(p0.ring_offsets), Seq::empty())
                =~= p0.ring_offsets);
            assert(p0.coords + flatten(Seq::empty()) =~= p0.coords);
            assert(self.parts() =~= p1);
        }
    }

    /// Appends one line string: its length as a line-string offset, then its coordinates.
    fn push_ring(&mut self, ls: &LineString)
        requires
            line_fits_dim(ls.deep_view(), old(self).spec_dim()),
            old(self).spec_ring_end() + ls@.len() <= i32::MAX,
        ensures
            final(self).ring_offsets@ == old(self).ring_offsets@.push(
                (old(self).spec_ring_end() + ls@.len()) as i32,
            ),
            final(self).coords@ == old(self).coords@ + ring_of(ls.deep_view(), old(self).spec_dim()),
            final(self).geom_offsets@ == old(self).geom_offsets@,
            final(self).validity == old(self).validity,
            final(self).same_settings(*old(self)),
    {
        let ghost d = self.spec_dim();
        let ghost c0 = self.coords@;
        let ghost lv = ls.deep_view();
        self.ring_offsets.try_push_usize(ls.len()).unwrap();
        let ghost r1 = self.ring_offsets@;
        let mut i: usize = 0;
        while i < ls.len()
            invariant
                i <= ls@.len(),
                lv == ls.deep_view(),
                line_fits_dim(lv, d),
                self.coords.spec_dim() == d,
                self.coords.spec_coord_type() == old(self).coords.spec_coord_type(),
                self.coords@ == c0 + ring_of(lv, d).take(i as int),
                self.ring_offsets@ == r1,
                r1 == old(self).ring_offsets@.push((old(self).spec_ring_end() + ls@.len()) as i32),
                self.geom_offsets@ == old(self).geom_offsets@,
                self.validity == old(self).validity,
                self.metadata == old(self).metadata,
            decreases ls@.len() - i,
        {
            assert(lv[i as int] == ls@[i as int]@);
            self.coords.push_coord(&ls[i]);
            i += 1;
            assert(ring_of(lv, d).take(i as int) =~= ring_of(lv, d).take(i - 1).push(
                ring_of(lv, d)[i - 1],
            ));
        }
        assert(ring_of(lv, d).take(ls@.len() as int) =~= ring_of(lv, d));
    }

    /// Appends a line string, as a multi line string of one line string, or a null slot
    /// for `None`.
    ///
    /// Errors, leaving the builder as it was, iff the new geometry offset does not fit in an
    /// `i32`. The line-string offset must fit too: where it does not, the call would panic,
    /// which `requires` rules out.
    pub fn push_line_string(&mut self, value: Option<&LineString>) -> (r: Result<(), GeoArrowError>)
        requires
            value matches Some(ls) ==> old(self).spec_geom_end() + 1 <= i32::MAX ==> {
                &&& line_fits_dim(ls.deep_view(), old(self).spec_dim())
                &&& old(self).spec_ring_end() + ls@.len() <= i32::MAX
            },
        ensures
            final(self).same_settings(*old(self)),
            match value {
                None => r is Ok && final(self).parts() == push_parts(old(self).parts(), None),
                Some(ls) => if old(self).spec_geom_end() + 1 > i32::MAX {
                    &&& r matches Err(GeoArrowError::Overflow)
                    &&& final(self).parts() == old(self).parts()
                } else {
                    &&& r is Ok
                    &&& final(self).parts() == push_parts(
                        old(self).parts(),
                        Some(seq![ring_of(ls.deep_view(), old(self).spec_dim())]),
                    )
                },
            },
            r is Ok && old(self).consistent() ==> {
                &&& final(self).consistent()
                &&& final(self)@ == old(self)@.push(
                    multi_line_string_slot(
                        match value {
                            Some(ls) => Some(seq![ls.deep_view()]),
                            None => None,
                        },
                        old(self).spec_dim(),
                    ),
                )
            },
    {
        let ghost p0 = self.parts();
        let ghost d = self.spec_dim();
        if let Some(line_string) = value {
            proof {
                use_type_invariant(&self.geom_offsets);
                use_type_invariant(&self.ring_offsets);
            }
            let num_line_strings: usize = 1;
            self.geom_offsets.try_push_usize(num_line_strings)?;
            self.push_ring(line_string);
            null_builder_append(&mut self.validity, true);
            proof {
                let m = seq![ring_of(line_string.deep_view(), d)];
                assert(m.drop_last() =~= Seq::<Seq<Seq<u64>>>::empty());
                reveal_with_fuel(flatten, 2);
                reveal_with_fuel(ring_ends, 2);
                assert(flatten(m) =~= m[0]);
                assert(ring_ends(last_offset(p0.ring_offsets), m) =~= seq![
                    (last_offset(p0.ring_offsets) + m[0].len()) as i32,
                ]);
                let p1 = push_parts(p0, Some(m));
                assert(line_string.deep_view().len() == line_string@.len());
                assert(self.parts().geom_offsets =~= p1.geom_offsets);
                assert(self.parts().ring_offsets =~= p1.ring_offsets);
                assert(self.parts().coords =~= p1.coords);
                assert(self.parts().validity =~= p1.validity);
                assert(self.parts() =~= push_parts(p0, Some(m)));
                assert(rings_of(seq![line_string.deep_view()], d) =~= m);
                if p0.consistent() {
                    lemma_push_parts(p0, Some(m));
                }
            }
        } else {
            self.push_null();
            proof {
                if p0.consistent() {
                    lemma_push_parts(p0, None);
                }
            }
        }
        Ok(())
    }

    /// Appends a multi line string: the number of its line strings as a geometry offset, then
    /// each line string's length as a line-string offset and its coordinates; or a null slot
    /// for `None`.
    ///
    /// Errors, leaving the builder as it was, iff the new geometry offset does not fit in an
    /// `i32`. The line-string offsets must fit too: where they do not, the call would panic,
    /// which `requires` rules out.
    pub fn push_multi_line_string(&mut self, value: Option<&MultiLineString>) -> (r: Result<
        (),
        GeoArrowError,
    >)
        requires
            value matches Some(m) ==> old(self).spec_geom_end() + m@.len() <= i32::MAX ==> {
                &&& lines_fit_dim(m.deep_view(), old(self).spec_dim())
                &&& old(self).spec_ring_end() + total_coords(rings_of(m.deep_view(), old(self).spec_dim()))
                    <= i32::MAX
            },
        ensures
            final(self).same_settings(*old(self)),
            match value {
                None => r is Ok && final(self).parts() == push_parts(old(self).parts(), None),
                Some(m) => if old(self).spec_geom_end() + m@.len() > i32::MAX {
                    &&& r matches Err(GeoArrowError::Overflow)
                    &&& final(self).parts() == old(self).parts()
                } else {
                    &&& r is Ok
                    &&& final(self).parts() == push_parts(
                        old(self).parts(),
                        Some(rings_of(m.deep_view(), old(self).spec_dim())),
                    )
                },
            },
            r is Ok && old(self).consistent() ==> {
                &&& final(self).consistent()
                &&& final(self)@ == old(self)@.push(
                    multi_line_string_slot(
                        match value {
                            Some(m) => Some(m.deep_view()),
                            None => None,
                        },
                        old(self).spec_dim(),
                    ),
                )
            },
    {
        let ghost p0 = self.parts();
        let ghost d = self.spec_dim();
        if let Some(multi_line_string) = value {
            proof {
                use_type_invariant(&self.geom_offsets);
                use_type_invariant(&self.ring_offsets);
            }
            // Total number of line strings in this multi line string.
            let num_line_strings = multi_line_string.len();
            self.geom_offsets.try_push_usize(num_line_strings)?;
            let ghost mv = multi_line_string.deep_view();
            let ghost tm = rings_of(mv, d);
            let ghost s = last_offset(p0.ring_offsets);
            let ghost g1 = self.geom_offsets@;
            proof {
                assert(tm.take(0) =~= Seq::<Seq<Seq<u64>>>::empty());
                assert(tm.take(tm.len() as int) =~= tm);
                assert(p0.ring_offsets + ring_ends(s, tm.take(0)) =~= p0.ring_offsets);
                assert(p0.coords + flatten(tm.take(0)) =~= p0.coords);
            }
            // Each line string: its number of coordinates as a line-string offset, then its
            // coordinates.
            let mut k: usize = 0;
            while k < multi_line_string.len()
                invariant
                    k <= multi_line_string@.len(),
                    mv == multi_line_string.deep_view(),
                    lines_fit_dim(mv, d),
                    tm == rings_of(mv, d),
                    tm.len() == multi_line_string@.len(),
                    s + total_coords(tm) <= i32::MAX,
                    self.ring_offsets@ == p0.ring_offsets + ring_ends(s, tm.take(k as int)),
                    self.coords@ == p0.coords + flatten(tm.take(k as int)),
                    last_offset(self.ring_offsets@) == s + flatten(tm.take(k as int)).len(),
                    self.spec_dim() == d,
                    self.spec_coord_type() == old(self).spec_coord_type(),
                    self.metadata == old(self).metadata,
                    self.geom_offsets@ == g1,
                    self.validity == old(self).validity,
                decreases multi_line_string@.len() - k,
            {
                proof {
                    lemma_flatten_take_step(tm, k as int);
                    lemma_flatten_take_monotone(tm, k + 1, tm.len() as int);
                    assert(tm.take(tm.len() as int) =~= tm);
                    assert(flatten(tm.take(k + 1)).len() == flatten(tm.take(k as int)).len()
                        + tm[k as int].len());
                    assert(mv[k as int] == multi_line_string@[k as int].deep_view());
                    assert(tm[k as int] == ring_of(mv[k as int], d));
                    assert(multi_line_string@[k as int].deep_view().len()
                        == multi_line_string@[k as int]@.len());
                    assert(tm[k as int].len() == multi_line_string@[k as int]@.len());
                }
                self.push_ring(&multi_line_string[k]);
                k += 1;
                proof {
                    assert(tm.take(k as int).drop_last() =~= tm.take(k - 1));
                    assert(self.ring_offsets@ =~= p0.ring_offsets + ring_ends(s, tm.take(k as int)));
                }
            }
            null_builder_append(&mut self.validity, true);
            proof {
                assert(self.parts() =~= push_parts(p0, Some(tm)));
                if p0.consistent() {
                    lemma_push_parts(p0, Some(tm));
                }
            }
        } else {
            self.push_null();
            proof {
                if p0.consistent() {
                    lemma_push_parts(p0, None);
                }
            }
        }
        Ok(())
    }

    /// Appends a geometry: a line string or a multi line string as `push_line_string` and
    /// `push_multi_line_string` do, a null slot for `None`.
    ///
    /// Errors, leaving the builder as it was, on a geometry of any other kind, and iff the
    /// new geometry offset does not fit in an `i32`.
    pub fn push_geometry(&mut self, value: Option<&Geometry>) -> (r: Result<(), GeoArrowError>)
        requires
            value matches Some(g) ==> g.is_line_kind() ==> old(self).spec_geom_end()
                + g.spec_lines().len() <= i32::MAX ==> {
                &&& lines_fit_dim(g.spec_lines(), old(self).spec_dim())
                &&& old(self).spec_ring_end() + total_coords(rings_of(g.spec_lines(), old(self).spec_dim()))
                    <= i32::MAX
            },
        ensures
            final(self).same_settings(*old(self)),
            match value {
                None => r is Ok && final(self).parts() == push_parts(old(self).parts(), None),
                Some(g) => if !g.is_line_kind() {
                    &&& r matches Err(GeoArrowError::General(m)) && m@ == incorrect_type_message()
                    &&& final(self).parts() == old(self).parts()
                } else if old(self).spec_geom_end() + g.spec_lines().len() > i32::MAX {
                    &&& r matches Err(GeoArrowError::Overflow)
                    &&& final(self).parts() == old(self).parts()
                } else {
                    &&& r is Ok
                    &&& final(self).parts() == push_parts(
                        old(self).parts(),
                        geometry_slot(Some(*g), old(self).spec_dim()),
                    )
                },
            },
            r is Ok && old(self).consistent() ==> {
                &&& final(self).consistent()
                &&& final(self)@ == old(self)@.push(
                    geometry_slot(
                        match value {
                            Some(g) => Some(*g),
                            None => None,
                        },
                        old(self).spec_dim(),
                    ),
                )
            },
    {
        let ghost d = self.spec_dim();
        if let Some(value) = value {
            match value {
                Geometry::LineString(g) => {
                    assert(rings_of(seq![g.deep_view()], d) =~= seq![ring_of(g.deep_view(), d)]);
                    assert(seq![g.deep_view()][0] == g.deep_view());
                    assert(lines_fit_dim(seq![g.deep_view()], d) ==> line_fits_dim(
                        g.deep_view(),
                        d,
                    ));
                    reveal_with_fuel(flatten, 2);
                    self.push_line_string(Some(g))?
                },
                Geometry::MultiLineString(g) => self.push_multi_line_string(Some(g))?,
                _ => return Err(incorrect_type_error()),
            }
        } else {
            self.push_null();
            proof {
                if old(self).consistent() {
                    lemma_push_parts(old(self).parts(), None);
                }
            }
        };
        Ok(())
    }

    /// Appends a raw geometry offset: the last one plus `offsets_length`, with a `true`
    /// validity bit. Nothing else changes, so the parts may no longer fit together.
    ///
    /// Errors, leaving the builder as it was, iff the new offset does not fit in an `i32`.
    pub fn try_push_geom_offset(&mut self, offsets_length: usize) -> (r: Result<(), GeoArrowError>)
        ensures
            final(self).same_settings(*old(self)),
            old(self).spec_geom_end() + offsets_length > i32::MAX ==> {
                &&& r matches Err(GeoArrowError::Overflow)
                &&& final(self).parts() == old(self).parts()
            },
            old(self).spec_geom_end() + offsets_length <= i32::MAX ==> {
                &&& r is Ok
                &&& final(self).parts() == (Parts {
                    geom_offsets: old(self).parts().geom_offsets.push(
                        (old(self).spec_geom_end() + offsets_length) as i32,
                    ),
                    validity: old(self).parts().validity.push(true),
                    ..old(self).parts()
                })
            },
    {
        self.geom_offsets.try_push_usize(offsets_length)?;
        null_builder_append(&mut self.validity, true);
        Ok(())
    }

    /// Appends a raw line-string offset: the last one plus `offsets_length`. Nothing else
    /// changes, so the parts may no longer fit together.
    ///
    /// Errors, leaving the builder as it was, iff the new offset does not fit in an `i32`.
    pub fn try_push_ring_offset(&mut self, offsets_length: usize) -> (r: Result<(), GeoArrowError>)
        ensures
            final(self).same_settings(*old(self)),
            old(self).spec_ring_end() + offsets_length > i32::MAX ==> {
                &&& r matches Err(GeoArrowError::Overflow)
                &&& final(self).parts() == old(self).parts()
            },
            old(self).spec_ring_end() + offsets_length <= i32::MAX ==> {
                &&& r is Ok
                &&& final(self).parts() == (Parts {
                    ring_offsets: old(self).parts().ring_offsets.push(
                        (old(self).spec_ring_end() + offsets_length) as i32,
                    ),
                    ..old(self).parts()
                })
            },
    {
        self.ring_offsets.try_push_usize(offsets_length)?;
        Ok(())
    }

    /// Appends a raw coordinate: its first `dim` values. Nothing else changes, so the parts
    /// may no longer fit together.
    pub fn push_coord(&mut self, coord: &Coord) -> (r: Result<(), GeoArrowError>)
        requires
            coord@.len() >= old(self).spec_dim().spec_size(),
        ensures
            r is Ok,
            final(self).same_settings(*old(self)),
            final(self).parts() == (Parts {
                coords: old(self).parts().coords.push(
                    crate::coord::coord_prefix(coord@, old(self).spec_dim()),
                ),
                ..old(self).parts()
            }),
    {
        self.coords.push_coord(coord);
        Ok(())
    }

    /// Reserves room for at least the given numbers of coordinates, line strings and
    /// geometries more. The contents stay as they are.
    pub fn reserve(&mut self, additional: MultiLineStringCapacity)
        ensures
            final(self).same_settings(*old(self)),
            final(self).parts() == old(self).parts(),
    {
        self.coords.reserve(additional.coord_capacity);
        self.ring_offsets.reserve(additional.ring_capacity);
        self.geom_offsets.reserve(additional.geom_capacity);
    }

    /// Room for exactly `additional` more fits in `isize::MAX` bytes per buffer.
    pub open spec fn reserve_exact_fits(self, additional: MultiLineStringCapacity) -> bool {
        &&& coord_room(
            self.spec_coord_type(),
            self.spec_dim(),
            self.parts().coords.len() as int,
            additional.coord_capacity as int,
        )
        &&& (self.parts().ring_offsets.len() + additional.ring_capacity) * 4 <= isize::MAX
        &&& (self.parts().geom_offsets.len() + additional.geom_capacity) * 4 <= isize::MAX
    }

    /// Whether room for exactly `additional` more fits in `isize::MAX` bytes per buffer, as
    /// `reserve_exact` asks.
    pub fn can_reserve_exact(&self, additional: MultiLineStringCapacity) -> (r: bool)
        ensures
            r == self.reserve_exact_fits(additional),
    {
        let limit = isize::MAX as u128;
        let coords = self.coords.len() as u128 + additional.coord_capacity as u128;
        let per_coord: u128 = match self.coords.coord_type() {
            CoordType::Interleaved => match self.coords.dim() {
                Dimension::XY => 16,
                Dimension::XYZ => 24,
            },
            CoordType::Separated => 8,
        };
        let rings = self.ring_offsets.len_proxy() as u128 + 1 + additional.ring_capacity as u128;
        let geoms = self.geom_offsets.len_proxy() as u128 + 1 + additional.geom_capacity as u128;
        coords * per_coord <= limit && rings * 4 <= limit && geoms * 4 <= limit
    }

    /// Reserves room for exactly the given numbers of coordinates, line strings and
    /// geometries more. The contents stay as they are. The room must fit in `isize::MAX`
    /// bytes per buffer: where it does not, the call would panic, which `requires` rules out.
    pub fn reserve_exact(&mut self, additional: MultiLineStringCapacity)
        requires
            old(self).reserve_exact_fits(additional),
        ensures
            final(self).same_settings(*old(self)),
            final(self).parts() == old(self).parts(),
    {
        self.coords.reserve_exact(additional.coord_capacity);
        self.ring_offsets.reserve_exact(additional.ring_capacity);
        self.geom_offsets.reserve_exact(additional.geom_capacity);
    }

    /// Puts a builder together from its parts, checking that they fit together.
    ///
    /// Errors, in this order:
    /// - if the number of validity bits differs from the number of geometries;
    /// - if the largest line-string offset differs from the number of coordinates;
    /// - if the largest geometry offset differs from the number of line strings.
    pub fn try_new(
        coords: CoordBufferBuilder,
        geom_offsets: OffsetsBuilder,
        ring_offsets: OffsetsBuilder,
        validity: NullBufferBuilder,
        metadata: Arc<ArrayMetadata>,
    ) -> (r: Result<Self, GeoArrowError>)
        ensures
            check_result(&coords, &geom_offsets, &ring_offsets, &validity, outcome(r)),
            r matches Ok(b) ==> {
                &&& b.parts() == parts_of(&coords, &geom_offsets, &ring_offsets, &validity)
                &&& b.spec_dim() == coords.spec_dim()
                &&& b.spec_coord_type() == coords.spec_coord_type()
                &&& b.spec_metadata() == *metadata
            },
    {
        check(&coords, &geom_offsets, &ring_offsets, &validity)?;
        Ok(MultiLineStringBuilder { coords, geom_offsets, ring_offsets, validity, metadata })
    }

    /// Takes the builder apart: coordinates, geometry offsets, line-string offsets, validity.
    pub fn into_inner(self) -> (r: MultiLineStringInner)
        ensures
            r.0@ == self.parts().coords,
            r.0.spec_dim() == self.spec_dim(),
            r.0.spec_coord_type() == self.spec_coord_type(),
            r.1@ == self.parts().geom_offsets,
            r.2@ == self.parts().ring_offsets,
            null_builder_bits(r.3) == self.parts().validity,
    {
        (self.coords, self.geom_offsets, self.ring_offsets, self.validity)
    }

    /// The number of geometry slots, null ones included.
    pub fn len(&self) -> (r: usize)
        ensures
            r == self@.len(),
            r == self.parts().geom_offsets.len() - 1,
    {
        self.geom_offsets.len_proxy()
    }

    /// The validity bits, one per slot.
    pub fn nulls(&self) -> (r: &NullBufferBuilder)
        ensures
            null_builder_bits(*r) == self.parts().validity,
    {
        &self.validity
    }

    /// The last geometry offset: the number of line strings the geometries cover.
    pub fn last_geom_offset(&self) -> (r: i32)
        ensures
            r == self.spec_geom_end(),
            r >= 0,
    {
        self.geom_offsets.last()
    }

    /// The last line-string offset: the number of coordinates the line strings cover.
    pub fn last_ring_offset(&self) -> (r: i32)
        ensures
            r == self.spec_ring_end(),
            r >= 0,
    {
        self.ring_offsets.last()
    }

    /// The dimension of the coordinates.
    pub fn dim(&self) -> (r: Dimension)
        ensures
            r == self.spec_dim(),
    {
        self.coords.dim()
    }

    /// The layout of the coordinates.
    pub fn coord_type(&self) -> (r: CoordType)
        ensures
            r == self.spec_coord_type(),
    {
        self.coords.coord_type()
    }

    /// Replaces the metadata.
    pub fn set_metadata(&mut self, metadata: Arc<ArrayMetadata>)
        ensures
            final(self).parts() == old(self).parts(),
            final(self).spec_dim() == old(self).spec_dim(),
            final(self).spec_coord_type() == old(self).spec_coord_type(),
            final(self).spec_metadata() == *metadata,
    {
        self.metadata = metadata;
    }

    /// The metadata.
    pub fn metadata(&self) -> (r: Arc<ArrayMetadata>)
        ensures
            *r == self.spec_metadata(),
    {
        self.metadata.clone()
    }

    /// An empty builder with room for `geom_capacity` geometries.
    pub fn with_geom_capacity_and_options(
        geom_capacity: usize,
        coord_type: CoordType,
        metadata: Arc<ArrayMetadata>,
    ) -> (r: Self)
        requires
            D == 2 || D == 3,
        ensures
            r@ == Seq::<Option<RingsValue>>::empty(),
            r.parts() == Parts::empty(),
            r.consistent(),
            r.spec_dim().spec_size() == D,
            r.spec_coord_type() == coord_type,
            r.spec_metadata() == *metadata,
    {
        let capacity = MultiLineStringCapacity::new(0, 0, geom_capacity);
        Self::with_capacity_and_options(capacity, coord_type, metadata)
    }

    /// Appends the nullable multi line strings `geoms` one after another.
    ///
    /// Every offset must fit in an `i32`: where one does not, the call would panic, which
    /// `requires` rules out.
    pub fn extend_from_iter(&mut self, geoms: &[Option<&MultiLineString>])
        requires
            slots_fit_dim(geoms.deep_view(), old(self).spec_dim()),
            slots_fit(
                old(self).parts(),
                multi_line_string_slots(geoms.deep_view(), old(self).spec_dim()),
            ),
        ensures
            final(self).same_settings(*old(self)),
            final(self).parts() == push_all(
                old(self).parts(),
                multi_line_string_slots(geoms.deep_view(), old(self).spec_dim()),
            ),
            old(self).consistent() ==> {
                &&& final(self).consistent()
                &&& final(self)@ == old(self)@ + multi_line_string_slots(
                    geoms.deep_view(),
                    old(self).spec_dim(),
                )
            },
    {
        proof {
            use_type_invariant(&self.geom_offsets);
            use_type_invariant(&self.ring_offsets);
        }
        let ghost d = self.spec_dim();
        let ghost gs = geoms.deep_view();
        let ghost slots = multi_line_string_slots(gs, d);
        let ghost p0 = self.parts();
        let mut i: usize = 0;
        assert(slots.take(0) =~= Seq::<Option<RingsValue>>::empty());
        while i < geoms.len()
            invariant
                i <= geoms@.len(),
                gs == geoms.deep_view(),
                gs.len() == geoms@.len(),
                slots == multi_line_string_slots(gs, d),
                slots_fit_dim(gs, d),
                slots_fit(p0, slots),
                p0.geom_offsets.len() >= 1,
                p0.ring_offsets.len() >= 1,
                last_offset(p0.geom_offsets) >= 0,
                last_offset(p0.ring_offsets) >= 0,
                self.parts() == push_all(p0, slots.take(i as int)),
                self.spec_geom_end() == last_offset(p0.geom_offsets) + sum_rings(slots.take(i as int)),
                self.spec_ring_end() == last_offset(p0.ring_offsets) + sum_coords(slots.take(i as int)),
                self.parts().geom_offsets.len() >= 1,
                self.parts().ring_offsets.len() >= 1,
                self.spec_dim() == d,
                self.same_settings(*old(self)),
            decreases geoms@.len() - i,
        {
            proof {
                lemma_take_step(slots, i as int);
                lemma_sums_take_monotone(slots, i + 1);
                lemma_sums_take_monotone(slots, i as int);
                assert(gs[i as int] == geoms@[i as int].deep_view());
                if let Some(m) = gs[i as int] {
                    lemma_rings_of_total(m, d);
                }
                lemma_push_parts_ends(self.parts(), slots[i as int]);
            }
            self.push_multi_line_string(geoms[i]).unwrap();
            i += 1;
        }
        proof {
            assert(slots.take(slots.len() as int) =~= slots);
            if p0.consistent() {
                lemma_push_all(p0, slots);
            }
        }
    }

    /// Appends the nullable geometries `geoms` one after another, as `push_geometry` does,
    /// stopping at the first one that errors: one of another kind than line string and multi
    /// line string, or one whose geometry offset does not fit in an `i32`. The geometries
    /// before it stay appended.
    ///
    /// The line-string offsets of the geometries appended must fit too: where they do not, the
    /// call would panic, which `requires` rules out.
    pub fn extend_from_geometry_iter(&mut self, geoms: &[Option<Geometry>]) -> (r: Result<
        (),
        GeoArrowError,
    >)
        requires
            forall|i: int|
                0 <= i < accepted_len(old(self).spec_geom_end(), geoms@, old(self).spec_dim())
                    && i < geoms@.len() ==> (#[trigger] geoms@[i] matches Some(g) ==> lines_fit_dim(
                    g.spec_lines(),
                    old(self).spec_dim(),
                )),
            old(self).spec_ring_end() + sum_coords(
                geometry_slots(geoms@, old(self).spec_dim()).take(
                    accepted_len(old(self).spec_geom_end(), geoms@, old(self).spec_dim()) as int,
                ),
            ) <= i32::MAX,
        ensures
            ({
                let n = accepted_len(old(self).spec_geom_end(), geoms@, old(self).spec_dim());
                let slots = geometry_slots(geoms@, old(self).spec_dim()).take(n as int);
                &&& final(self).same_settings(*old(self))
                &&& final(self).parts() == push_all(old(self).parts(), slots)
                &&& n == geoms@.len() ==> r is Ok
                &&& n < geoms@.len() ==> if geoms@[n as int] matches Some(g) && !g.is_line_kind() {
                    r matches Err(GeoArrowError::General(m)) && m@ == incorrect_type_message()
                } else {
                    r matches Err(GeoArrowError::Overflow)
                }
                &&& old(self).consistent() ==> {
                    &&& final(self).consistent()
                    &&& final(self)@ == old(self)@ + slots
                }
            }),
    {
        proof {
            use_type_invariant(&self.geom_offsets);
            use_type_invariant(&self.ring_offsets);
        }
        let ghost d = self.spec_dim();
        let ghost gs = geoms@;
        let ghost slots = geometry_slots(gs, d);
        let ghost p0 = self.parts();
        let ghost ge = self.spec_geom_end();
        let ghost n = accepted_len(ge, gs, d);
        proof {
            assert(gs.take(0) =~= Seq::<Option<Geometry>>::empty());
            assert(slots.take(0) =~= Seq::<Option<RingsValue>>::empty());
            assert(geometry_slots(gs.take(0), d) =~= Seq::<Option<RingsValue>>::empty());
            lemma_accepted_len_at_least(ge, gs, d, 0);
            lemma_sums_take_monotone(slots, n as int);
        }
        let mut i: usize = 0;
        while i < geoms.len()
            invariant
                i <= n <= geoms@.len(),
                gs == geoms@,
                slots == geometry_slots(gs, d),
                n == accepted_len(ge, gs, d),
                ge == last_offset(p0.geom_offsets),
                p0 == old(self).parts(),
                d == old(self).spec_dim(),
                accepts(ge, gs.take(i as int), d),
                forall|k: int| 0 <= k < n ==> (#[trigger] gs[k] matches Some(g) ==> lines_fit_dim(
                    g.spec_lines(),
                    d,
                )),
                last_offset(p0.ring_offsets) + sum_coords(slots.take(n as int)) <= i32::MAX,
                p0.geom_offsets.len() >= 1,
                p0.ring_offsets.len() >= 1,
                last_offset(p0.geom_offsets) >= 0,
                last_offset(p0.ring_offsets) >= 0,
                self.parts() == push_all(p0, slots.take(i as int)),
                self.spec_geom_end() == ge + sum_rings(slots.take(i as int)),
                self.spec_ring_end() == last_offset(p0.ring_offsets) + sum_coords(slots.take(i as int)),
                self.parts().geom_offsets.len() >= 1,
                self.parts().ring_offsets.len() >= 1,
                self.spec_dim() == d,
                self.same_settings(*old(self)),
            ensures
                self.parts() == push_all(p0, slots.take(i as int)),
                self.same_settings(*old(self)),
                i == n,
                i == geoms@.len(),
            decreases geoms@.len() - i,
        {
            proof {
                lemma_take_step(slots, i as int);
                lemma_sums_take_monotone(slots, i as int);
                assert(geometry_slots(gs.take(i as int), d) =~= slots.take(i as int));
                assert(geometry_slots(gs.take(i + 1), d) =~= slots.take(i + 1));
                if let Some(g) = gs[i as int] {
                    lemma_rings_of_total(g.spec_lines(), d);
                }
                if accepts(ge, gs.take(i + 1), d) {
                    lemma_accepted_len_at_least(ge, gs, d, i + 1);
                    lemma_sums_take_monotone(slots.take(n as int), i + 1);
                    assert(slots.take(n as int).take(i + 1) =~= slots.take(i + 1));
                    lemma_push_parts_ends(self.parts(), slots[i as int]);
                } else {
                    lemma_accepted_len_stop(ge, gs, d, i as int);
                    assert(!(gs.take(i + 1)[i as int] matches Some(g) ==> g.is_line_kind())
                        || !(ge + sum_rings(slots.take(i + 1)) <= i32::MAX)) by {
                        assert forall|k: int| 0 <= k < i implies (#[trigger] gs.take(i + 1)[k] matches Some(
                            g,
                        ) ==> g.is_line_kind()) by {
                            assert(gs.take(i + 1)[k] == gs.take(i as int)[k]);
                        }
                    }
                }
            }
            let r = self.push_geometry(geoms[i].as_ref());
            if r.is_err() {
                proof {
                    if accepts(ge, gs.take(i + 1), d) {
                        assert(false);
                    }
                    assert(slots.take(n as int) =~= slots.take(i as int));
                    if p0.consistent() {
                        lemma_push_all(p0, slots.take(i as int));
                    }
                    assert(n == i);
                    assert(self.parts() == push_all(p0, slots.take(n as int)));
                    assert(n < geoms@.len());
                    if gs[i as int] matches Some(g) && !g.is_line_kind() {
                        assert(r matches Err(GeoArrowError::General(m)) && m@ == incorrect_type_message());
                    } else {
                        assert(r matches Err(GeoArrowError::Overflow));
                    }
                }
                return r;
            }
            proof {
                if !accepts(ge, gs.take(i + 1), d) {
                    assert(false);
                }
                lemma_accepted_len_at_least(ge, gs, d, i + 1);
            }
            i += 1;
        }
        proof {
            assert(slots.take(n as int) =~= slots.take(i as int));
            if p0.consistent() {
                lemma_sums_take_monotone(slots.take(n as int), n as int);
                assert(slots.take(n as int).take(n as int) =~= slots.take(n as int));
                lemma_sums_take_monotone(slots, n as int);
                lemma_accepts_prefix(ge, gs.take(n as int), d, n as int);
                lemma_push_all(p0, slots.take(n as int));
            }
        }
        Ok(())
    }

    /// An empty builder with room for the nullable multi line strings `geoms`, coordinates
    /// laid out as `coord_type`.
    pub fn with_capacity_and_options_from_iter(
        geoms: &[Option<&MultiLineString>],
        coord_type: CoordType,
        metadata: Arc<ArrayMetadata>,
    ) -> (r: Self)
        requires
            D == 2 || D == 3,
            sum_rings(geoms.deep_view()) <= usize::MAX,
            sum_coords(geoms.deep_view()) <= usize::MAX,
        ensures
            r@ == Seq::<Option<RingsValue>>::empty(),
            r.parts() == Parts::empty(),
            r.consistent(),
            r.spec_dim().spec_size() == D,
            r.spec_coord_type() == coord_type,
            r.spec_metadata() == *metadata,
    {
        let counter = MultiLineStringCapacity::from_multi_line_strings(geoms);
        Self::with_capacity_and_options(counter, coord_type, metadata)
    }

    /// An empty builder with room for the nullable multi line strings `geoms`, with
    /// interleaved coordinates and empty metadata.
    pub fn with_capacity_from_iter(geoms: &[Option<&MultiLineString>]) -> (r: Self)
        requires
            D == 2 || D == 3,
            sum_rings(geoms.deep_view()) <= usize::MAX,
            sum_coords(geoms.deep_view()) <= usize::MAX,
        ensures
            r@ == Seq::<Option<RingsValue>>::empty(),
            r.parts() == Parts::empty(),
            r.consistent(),
            r.spec_dim().spec_size() == D,
            r.spec_coord_type() == CoordType::Interleaved,
            r.spec_metadata().crs is None,
            r.spec_metadata().edges is None,
    {
        Self::with_capacity_and_options_from_iter(
            geoms,
            CoordType::default(),
            Arc::new(ArrayMetadata::default()),
        )
    }

    /// Reserves room for at least the nullable multi line strings `geoms` more. The contents
    /// stay as they are.
    pub fn reserve_from_iter(&mut self, geoms: &[Option<&MultiLineString>])
        requires
            sum_rings(geoms.deep_view()) <= usize::MAX,
            sum_coords(geoms.deep_view()) <= usize::MAX,
        ensures
            final(self).same_settings(*old(self)),
            final(self).parts() == old(self).parts(),
    {
        let counter = MultiLineStringCapacity::from_multi_line_strings(geoms);
        self.reserve(counter)
    }

    /// Reserves room for exactly the nullable multi line strings `geoms` more. The contents
    /// stay as they are. The room must fit in `isize::MAX` bytes per buffer: where it does
    /// not, the call would panic, which `requires` rules out.
    pub fn reserve_exact_from_iter(&mut self, geoms: &[Option<&MultiLineString>])
        requires
            sum_rings(geoms.deep_view()) <= usize::MAX,
            sum_coords(geoms.deep_view()) <= usize::MAX,
            old(self).reserve_exact_fits(
                MultiLineStringCapacity {
                    coord_capacity: sum_coords(geoms.deep_view()) as usize,
                    ring_capacity: sum_rings(geoms.deep_view()) as usize,
                    geom_capacity: geoms@.len() as usize,
                },
            ),
        ensures
            final(self).same_settings(*old(self)),
            final(self).parts() == old(self).parts(),
    {
        let counter = MultiLineStringCapacity::from_multi_line_strings(geoms);
        self.reserve_exact(counter)
    }

    /// A builder holding the nullable multi line strings `geoms`, in order.
    fn from_refs(
        geoms: &[Option<&MultiLineString>],
        coord_type: Option<CoordType>,
        metadata: Arc<ArrayMetadata>,
    ) -> (r: Self)
        requires
            D == 2 || D == 3,
            slots_fit_dim(geoms.deep_view(), dimension_of(D as int)),
            sum_rings(geoms.deep_view()) <= i32::MAX,
            sum_coords(geoms.deep_view()) <= i32::MAX,
        ensures
            r.consistent(),
            r.spec_dim() == dimension_of(D as int),
            r@ == multi_line_string_slots(geoms.deep_view(), r.spec_dim()),
            r.parts() == push_all(Parts::empty(), multi_line_string_slots(geoms.deep_view(), r.spec_dim())),
            r.spec_coord_type() == coord_type.unwrap_or(CoordType::Interleaved),
            r.spec_metadata() == *metadata,
    {
        let coord_type = match coord_type {
            Some(c) => c,
            None => CoordType::default(),
        };
        let mut array = Self::with_capacity_and_options_from_iter(geoms, coord_type, metadata);
        let ghost d = array.spec_dim();
        proof {
            lemma_slots_sizes(geoms.deep_view(), d);
            assert(array@ + multi_line_string_slots(geoms.deep_view(), d) =~= multi_line_string_slots(
                geoms.deep_view(),
                d,
            ));
        }
        array.extend_from_iter(geoms);
        array
    }

    /// A builder holding the multi line strings `geoms`, in order, coordinates laid out as
    /// `coord_type` (interleaved when `None`).
    ///
    /// Every offset must fit in an `i32`: where one does not, the call would panic, which
    /// `requires` rules out.
    pub fn from_multi_line_strings(
        geoms: &[MultiLineString],
        coord_type: Option<CoordType>,
        metadata: Arc<ArrayMetadata>,
    ) -> (r: Self)
        requires
            D == 2 || D == 3,
            slots_fit_dim(as_present(geoms.deep_view()), dimension_of(D as int)),
            sum_rings(as_present(geoms.deep_view())) <= i32::MAX,
            sum_coords(as_present(geoms.deep_view())) <= i32::MAX,
        ensures
            r.consistent(),
            r.spec_dim() == dimension_of(D as int),
            r@ == multi_line_string_slots(as_present(geoms.deep_view()), r.spec_dim()),
            r.parts() == push_all(
                Parts::empty(),
                multi_line_string_slots(as_present(geoms.deep_view()), r.spec_dim()),
            ),
            r.spec_coord_type() == coord_type.unwrap_or(CoordType::Interleaved),
            r.spec_metadata() == *metadata,
    {
        let mut refs: Vec<Option<&MultiLineString>> = Vec::new();
        let mut i: usize = 0;
        while i < geoms.len()
            invariant
                i <= geoms@.len(),
                refs@.len() == i,
                forall|k: int| 0 <= k < i ==> #[trigger] refs@[k] == Some(&geoms@[k]),
            decreases geoms@.len() - i,
        {
            refs.push(Some(&geoms[i]));
            i += 1;
        }
        proof {
            assert(refs.deep_view() =~= as_present(geoms.deep_view()));
        }
        Self::from_refs(refs.as_slice(), coord_type, metadata)
    }

    /// A builder holding the nullable multi line strings `geoms`, in order, coordinates laid
    /// out as `coord_type` (interleaved when `None`).
    ///
    /// Every offset must fit in an `i32`: where one does not, the call would panic, which
    /// `requires` rules out.
    pub fn from_nullable_multi_line_strings(
        geoms: &[Option<MultiLineString>],
        coord_type: Option<CoordType>,
        metadata: Arc<ArrayMetadata>,
    ) -> (r: Self)
        requires
            D == 2 || D == 3,
            slots_fit_dim(geoms.deep_view(), dimension_of(D as int)),
            sum_rings(geoms.deep_view()) <= i32::MAX,
            sum_coords(geoms.deep_view()) <= i32::MAX,
        ensures
            r.consistent(),
            r.spec_dim() == dimension_of(D as int),
            r@ == multi_line_string_slots(geoms.deep_view(), r.spec_dim()),
            r.parts() == push_all(Parts::empty(), multi_line_string_slots(geoms.deep_view(), r.spec_dim())),
            r.spec_coord_type() == coord_type.unwrap_or(CoordType::Interleaved),
            r.spec_metadata() == *metadata,
    {
        let mut refs: Vec<Option<&MultiLineString>> = Vec::new();
        let mut i: usize = 0;
        while i < geoms.len()
            invariant
                i <= geoms@.len(),
                refs@.len() == i,
                forall|k: int| 0 <= k < i ==> #[trigger] refs@[k].deep_view() == geoms@[k].deep_view(),
            decreases geoms@.len() - i,
        {
            refs.push(geoms[i].as_ref());
            i += 1;
        }
        proof {
            assert(refs.deep_view() =~= geoms.deep_view());
        }
        Self::from_refs(refs.as_slice(), coord_type, metadata)
    }

    /// A builder holding the nullable geometries `geoms`, in order, coordinates laid out as
    /// `coord_type` (interleaved when `None`).
    ///
    /// Errors if some geometry is neither a line string nor a multi line string, and iff
    /// otherwise some geometry offset does not fit in an `i32`. The line-string offsets of
    /// the geometries before that must fit too: where they do not, the call would panic,
    /// which `requires` rules out.
    pub fn from_nullable_geometries(
        geoms: &[Option<Geometry>],
        coord_type: Option<CoordType>,
        metadata: Arc<ArrayMetadata>,
    ) -> (r: Result<Self, GeoArrowError>)
        requires
            D == 2 || D == 3,
            sum_rings(geometry_line_slots(geoms@)) <= usize::MAX,
            sum_coords(geometry_line_slots(geoms@)) <= usize::MAX,
            all_line_kind(geoms@) ==> {
                let d = dimension_of(D as int);
                let n = accepted_len(0, geoms@, d);
                &&& forall|i: int|
                    0 <= i < n && i < geoms@.len() ==> (#[trigger] geoms@[i] matches Some(g)
                        ==> lines_fit_dim(g.spec_lines(), d))
                &&& sum_coords(geometry_slots(geoms@, d).take(n as int)) <= i32::MAX
            },
        ensures
            !all_line_kind(geoms@) ==> (r matches Err(GeoArrowError::General(m)) && m@
                == incorrect_type_message()),
            all_line_kind(geoms@) && accepted_len(0, geoms@, dimension_of(D as int)) < geoms@.len()
                ==> r matches Err(GeoArrowError::Overflow),
            all_line_kind(geoms@) && accepted_len(0, geoms@, dimension_of(D as int))
                == geoms@.len() ==> (r matches Ok(b) && {
                &&& b.consistent()
                &&& b.spec_dim() == dimension_of(D as int)
                &&& b@ == geometry_slots(geoms@, b.spec_dim())
                &&& b.parts() == push_all(Parts::empty(), geometry_slots(geoms@, b.spec_dim()))
                &&& b.spec_coord_type() == coord_type.unwrap_or(CoordType::Interleaved)
                &&& b.spec_metadata() == *metadata
            }),
    {
        let capacity = MultiLineStringCapacity::from_geometries(geoms)?;
        let coord_type = match coord_type {
            Some(c) => c,
            None => CoordType::default(),
        };
        let mut array = Self::with_capacity_and_options(capacity, coord_type, metadata);
        let ghost d = array.spec_dim();
        proof {
            assert(d == dimension_of(D as int));
            let n = accepted_len(0, geoms@, d);
            assert(geoms@.take(0) =~= Seq::<Option<Geometry>>::empty());
            assert(geometry_slots(geoms@.take(0), d) =~= Seq::<Option<RingsValue>>::empty());
            lemma_accepted_len_at_least(0, geoms@, d, 0);
            assert(geometry_slots(geoms@, d).take(geoms@.len() as int) =~= geometry_slots(geoms@, d));
            assert(array@ + geometry_slots(geoms@, d) =~= geometry_slots(geoms@, d));
        }
        array.extend_from_geometry_iter(geoms)?;
        Ok(array)
    }

    /// Freezes the builder into an array holding the same multi line strings. The parts must
    /// fit together: where they do not, the call would panic, which `requires` rules out.
    pub fn finish(self) -> (r: MultiLineStringArray<D>)
        requires
            self.consistent(),
        ensures
            r@ == self@,
            r.spec_inner().parts() == self.parts(),
            r.spec_inner().spec_dim() == self.spec_dim(),
            r.spec_inner().spec_coord_type() == self.spec_coord_type(),
            r.spec_inner().spec_metadata() == self.spec_metadata(),
    {
        let MultiLineStringBuilder { metadata, coords, geom_offsets, ring_offsets, validity } = self;
        MultiLineStringArray::from_inner(
            finish_parts(coords, geom_offsets, ring_offsets, validity, metadata),
        )
    }
}

impl Default for MultiLineStringBuilder<2> {
    fn default() -> (r: Self)
        ensures
            r@ == Seq::<Option<RingsValue>>::empty(),
            r.parts() == Parts::empty(),
            r.consistent(),
            r.spec_dim() == Dimension::XY,
            r.spec_coord_type() == CoordType::Interleaved,
            r.spec_metadata().crs is None,
            r.spec_metadata().edges is None,
    {
        Self::new()
    }
}

impl Default for MultiLineStringBuilder<3> {
    fn default() -> (r: Self)
        ensures
            r@ == Seq::<Option<RingsValue>>::empty(),
            r.parts() == Parts::empty(),
            r.consistent(),
            r.spec_dim() == Dimension::XYZ,
            r.spec_coord_type() == CoordType::Interleaved,
            r.spec_metadata().crs is None,
            r.spec_metadata().edges is None,
    {
        Self::new()
    }
}

} // verus!
