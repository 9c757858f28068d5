//! Geometries as plain values: coordinates are the bit patterns of their floating-point values.
use vstd::prelude::*;

use crate::coord::{coord_prefix, Dimension};
use crate::layout::{
    sum_coords, sum_rings, total_coords, RingValue,
    RingsValue,
};

verus! {

/// A coordinate: the bit patterns (`f64::to_bits`) of its values, x first.
pub type Coord = Vec<u64>;

/// A line string: its coordinates in order.
pub type LineString = Vec<Coord>;

/// A multi line string: its line strings in order.
pub type MultiLineString = Vec<LineString>;

/// A geometry of any kind. Only line strings and multi line strings carry their content:
/// the other kinds are refused by the builders of this library.
pub enum Geometry {
    Point,
    LineString(LineString),
    Polygon,
    MultiPoint,
    MultiLineString(MultiLineString),
    MultiPolygon,
    GeometryCollection,
    Rect,
    Triangle,
    Line,
}

/// What a buffer of dimension `d` keeps of a line string: each coordinate's first `d` values.
pub open spec fn ring_of(ls: Seq<Seq<u64>>, d: Dimension) -> RingValue {
    ls.map_values(|c: Seq<u64>| coord_prefix(c, d))
}

/// What a buffer of dimension `d` keeps of the line strings of a multi line string.
pub open spec fn rings_of(m: Seq<Seq<Seq<u64>>>, d: Dimension) -> RingsValue {
    m.map_values(|ls: Seq<Seq<u64>>| ring_of(ls, d))
}

/// Every coordinate of the line string has at least `d` values.
pub open spec fn line_fits_dim(ls: Seq<Seq<u64>>, d: Dimension) -> bool {
    forall|i: int| 0 <= i < ls.len() ==> #[trigger] ls[i].len() >= d.spec_size()
}

/// Every coordinate of every line string has at least `d` values.
pub open spec fn lines_fit_dim(m: Seq<Seq<Seq<u64>>>, d: Dimension) -> bool {
    forall|k: int| 0 <= k < m.len() ==> line_fits_dim(#[trigger] m[k], d)
}

impl Geometry {
    /// A line string or a multi line string: the kinds that the builders take.
    pub open spec fn is_line_kind(self) -> bool {
        self is LineString || self is MultiLineString
    }

    /// The line strings of the geometry, as written: one for a line string.
    pub open spec fn spec_lines(self) -> Seq<Seq<Seq<u64>>> {
        match self {
            Geometry::LineString(ls) => seq![ls.deep_view()],
            Geometry::MultiLineString(m) => m.deep_view(),
            _ => Seq::empty(),
        }
    }
}

/// What a builder of dimension `d` records for a nullable geometry: `None` for a null slot,
/// else its line strings.
pub open spec fn geometry_slot(g: Option<Geometry>, d: Dimension) -> Option<RingsValue> {
    match g {
        Some(geo) => Some(rings_of(geo.spec_lines(), d)),
        None => None,
    }
}

/// What a builder of dimension `d` records for a nullable multi line string.
pub open spec fn multi_line_string_slot(m: Option<Seq<Seq<Seq<u64>>>>, d: Dimension) -> Option<
    RingsValue,
> {
    match m {
        Some(m) => Some(rings_of(m, d)),
        None => None,
    }
}

/// The line strings of each slot, when the geometries are taken as written.
pub open spec fn geometry_lines(g: Option<Geometry>) -> Seq<Seq<Seq<u64>>> {
    match g {
        Some(geo) => geo.spec_lines(),
        None => Seq::empty(),
    }
}

/// What a builder of dimension `d` records for each nullable multi line string.
pub open spec fn multi_line_string_slots(gs: Seq<Option<Seq<Seq<Seq<u64>>>>>, d: Dimension) -> Seq<
    Option<RingsValue>,
> {
    gs.map_values(|m: Option<Seq<Seq<Seq<u64>>>>| multi_line_string_slot(m, d))
}

/// Multi line strings, none of them null, as nullable ones.
pub open spec fn as_present(ms: Seq<Seq<Seq<Seq<u64>>>>) -> Seq<Option<Seq<Seq<Seq<u64>>>>> {
    ms.map_values(|m: Seq<Seq<Seq<u64>>>| Some(m))
}

/// What a builder of dimension `d` records for each nullable geometry.
pub open spec fn geometry_slots(gs: Seq<Option<Geometry>>, d: Dimension) -> Seq<Option<RingsValue>> {
    gs.map_values(|g: Option<Geometry>| geometry_slot(g, d))
}

/// Every coordinate of every present multi line string has at least `d` values.
pub open spec fn slots_fit_dim(gs: Seq<Option<Seq<Seq<Seq<u64>>>>>, d: Dimension) -> bool {
    forall|i: int| 0 <= i < gs.len() ==> (#[trigger] gs[i] matches Some(m) ==> lines_fit_dim(m, d))
}

/// Keeping the first `d` values of each coordinate keeps the number of coordinates.
pub proof fn lemma_rings_of_total(m: Seq<Seq<Seq<u64>>>, d: Dimension)
    ensures
        rings_of(m, d).len() == m.len(),
        total_coords(rings_of(m, d)) == total_coords(m),
    decreases m.len(),
{
    if m.len() > 0 {
        lemma_rings_of_total(m.drop_last(), d);
        assert(rings_of(m, d).drop_last() =~= rings_of(m.drop_last(), d));
    }
}

/// Keeping the first `d` values of each coordinate keeps the sums of rings and coordinates.
pub proof fn lemma_slots_sizes(gs: Seq<Option<Seq<Seq<Seq<u64>>>>>, d: Dimension)
    ensures
        sum_rings(multi_line_string_slots(gs, d)) == sum_rings(gs),
        sum_coords(multi_line_string_slots(gs, d)) == sum_coords(gs),
    decreases gs.len(),
{
    if gs.len() > 0 {
        lemma_slots_sizes(gs.drop_last(), d);
        assert(multi_line_string_slots(gs, d).drop_last() =~= multi_line_string_slots(
            gs.drop_last(),
            d,
        ));
        if let Some(m) = gs.last() {
            lemma_rings_of_total(m, d);
        }
    }
}

} // verus!
