//! Properties that relate several operations of the library.
use vstd::prelude::*;

use arrow_buffer::NullBufferBuilder;

use crate::builder::{accepted_len, accepts, check_result, parts_of};
use crate::capacity::all_line_kind;
use crate::coord::{CoordBufferBuilder, Dimension};
use crate::error::GeoArrowError;
use crate::offsets::OffsetsBuilder;
use crate::geometry::{
    as_present, geometry_slot, geometry_slots, lemma_slots_sizes, multi_line_string_slot, multi_line_string_slots, ring_of,
    rings_of, Geometry, LineString, MultiLineString,
};
use crate::layout::{
    flatten, lemma_push_all, lemma_push_parts, lemma_ring_ends, slot_fits, push_all, slots_fit, RingsValue, push_parts, ring_ends, slot_rings, sum_coords, sum_rings,
    Parts,
};

verus! {

/// The room that `MultiLineStringCapacity::from_multi_line_strings` counts for nullable multi
/// line strings is exactly what appending them adds: as many geometry offsets as slots, as
/// many line-string offsets as it counts line strings, as many coordinates as it counts
/// coordinates, whatever the dimension the builder keeps.
pub proof fn capacity_counts_what_extend_adds(
    p: Parts,
    gs: Seq<Option<Seq<Seq<Seq<u64>>>>>,
    d: Dimension,
)
    ensures
        ({
            let q = push_all(p, multi_line_string_slots(gs, d));
            &&& q.geom_offsets.len() == p.geom_offsets.len() + gs.len()
            &&& q.validity.len() == p.validity.len() + gs.len()
            &&& q.ring_offsets.len() == p.ring_offsets.len() + sum_rings(gs)
            &&& q.coords.len() == p.coords.len() + sum_coords(gs)
        }),
{
    lemma_slots_sizes(gs, d);
    lemma_growth(p, multi_line_string_slots(gs, d));
}

/// Appending slots adds one geometry offset and one validity bit per slot, one ring offset
/// per ring and one coordinate per coordinate.
proof fn lemma_growth(p: Parts, slots: Seq<Option<Seq<Seq<Seq<u64>>>>>)
    ensures
        ({
            let q = push_all(p, slots);
            &&& q.geom_offsets.len() == p.geom_offsets.len() + slots.len()
            &&& q.validity.len() == p.validity.len() + slots.len()
            &&& q.ring_offsets.len() == p.ring_offsets.len() + sum_rings(slots)
            &&& q.coords.len() == p.coords.len() + sum_coords(slots)
        }),
    decreases slots.len(),
{
    if slots.len() > 0 {
        lemma_growth(p, slots.drop_last());
        let q = push_all(p, slots.drop_last());
        lemma_ring_ends(
            crate::offsets::last_offset(q.ring_offsets),
            slot_rings(slots.last()),
        );
    }
}

/// A null slot adds only an empty geometry range and a `false` validity bit: the last
/// geometry offset is repeated, and the line-string offsets and coordinates stay as they were.
pub proof fn null_slot_adds_empty_range(p: Parts)
    ensures
        push_parts(p, None).geom_offsets == p.geom_offsets.push(
            crate::offsets::last_offset(p.geom_offsets) as i32,
        ),
        push_parts(p, None).ring_offsets == p.ring_offsets,
        push_parts(p, None).coords == p.coords,
        push_parts(p, None).validity == p.validity.push(false),
{
    assert(p.ring_offsets + ring_ends(crate::offsets::last_offset(p.ring_offsets), Seq::empty())
        =~= p.ring_offsets);
    assert(p.coords + flatten(Seq::empty()) =~= p.coords);
}

/// Parts that fit together pass `check`, so that `try_new` takes back what `into_inner`
/// gave out of a consistent builder.
pub proof fn consistent_parts_pass_check(
    coords: &CoordBufferBuilder,
    geom_offsets: &OffsetsBuilder,
    ring_offsets: &OffsetsBuilder,
    validity: &NullBufferBuilder,
    r: Result<(), GeoArrowError>,
)
    requires
        parts_of(coords, geom_offsets, ring_offsets, validity).consistent(),
        check_result(coords, geom_offsets, ring_offsets, validity, r),
    ensures
        r is Ok,
{
}

/// A push onto parts that fit together, where its offsets fit, leaves parts that fit
/// together; a push that errors leaves the parts as they were, so they fit either way.
pub proof fn push_keeps_parts_fitting(p: Parts, slot: Option<RingsValue>)
    requires
        p.consistent(),
        slot_fits(p, slot),
    ensures
        push_parts(p, slot).consistent(),
        push_parts(p, slot).geom_offsets.len() == p.geom_offsets.len() + 1,
        push_parts(p, slot).validity.len() == p.validity.len() + 1,
{
    lemma_push_parts(p, slot);
}

/// Pushing a line string records the same slot as pushing the multi line string made of that
/// one line string, so the two pushes leave equal builders behind (their errors agree too: each
/// adds one geometry offset of one line string).
pub proof fn line_string_push_is_one_line_multi_push(p: Parts, ls: Seq<Seq<u64>>, d: Dimension)
    ensures
        push_parts(p, Some(seq![ring_of(ls, d)])) == push_parts(
            p,
            multi_line_string_slot(Some(seq![ls]), d),
        ),
{
    assert(rings_of(seq![ls], d) =~= seq![ring_of(ls, d)]);
}

/// `push_geometry` records for a line string, a multi line string or `None` the same slot as
/// the matching push does.
pub proof fn geometry_push_matches_kind_push(ls: LineString, m: MultiLineString, d: Dimension)
    ensures
        geometry_slot(Some(Geometry::LineString(ls)), d) == multi_line_string_slot(
            Some(seq![ls.deep_view()]),
            d,
        ),
        geometry_slot(Some(Geometry::MultiLineString(m)), d) == multi_line_string_slot(
            Some(m.deep_view()),
            d,
        ),
        geometry_slot(None, d) == multi_line_string_slot(None, d),
{
}

/// Slots pushed one after another onto an empty builder, where the offsets fit, read back as
/// exactly those slots, in order; the parts fit together, so `finish` can freeze them and
/// `value(i)` gives slot `i` back.
pub proof fn pushes_read_back(slots: Seq<Option<RingsValue>>)
    requires
        slots_fit(Parts::empty(), slots),
    ensures
        push_all(Parts::empty(), slots).consistent(),
        push_all(Parts::empty(), slots).decode() == slots,
{
    assert(Parts::empty().decode() =~= Seq::<Option<RingsValue>>::empty());
    lemma_push_all(Parts::empty(), slots);
    assert(Parts::empty().decode() + slots =~= slots);
}

/// Extending with `a` and then with `b` leaves the same parts as extending with `a` followed
/// by `b` at once: extending is pushing in order.
pub proof fn extend_in_two_steps(p: Parts, a: Seq<Option<RingsValue>>, b: Seq<Option<RingsValue>>)
    ensures
        push_all(push_all(p, a), b) == push_all(p, a + b),
    decreases b.len(),
{
    if b.len() == 0 {
        assert(a + b =~= a);
    } else {
        extend_in_two_steps(p, a, b.drop_last());
        assert((a + b).drop_last() =~= a + b.drop_last());
        assert((a + b).last() == b.last());
    }
}

/// Pushing slots adds one geometry offset per slot and records, per slot, whether it held a
/// geometry: the builder's length counts the slots pushed, and its validity bits say which
/// were present.
pub proof fn pushes_count_and_record_presence(p: Parts, slots: Seq<Option<RingsValue>>)
    ensures
        push_all(p, slots).geom_offsets.len() == p.geom_offsets.len() + slots.len(),
        push_all(p, slots).validity == p.validity + slots.map_values(
            |s: Option<RingsValue>| s is Some,
        ),
    decreases slots.len(),
{
    if slots.len() == 0 {
        assert(p.validity + slots.map_values(|s: Option<RingsValue>| s is Some) =~= p.validity);
    } else {
        pushes_count_and_record_presence(p, slots.drop_last());
        assert(slots.map_values(|s: Option<RingsValue>| s is Some) =~= slots.drop_last().map_values(
            |s: Option<RingsValue>| s is Some,
        ).push(slots.last() is Some));
    }
}

/// The builders take exactly two kinds of geometry, line strings and multi line strings; every
/// other kind is refused (`push_geometry` answers it with "Incorrect type" and changes nothing).
pub proof fn only_line_strings_and_multi_line_strings_are_taken(
    ls: LineString,
    m: MultiLineString,
    gs: Seq<Option<Geometry>>,
)
    ensures
        Geometry::LineString(ls).is_line_kind(),
        Geometry::MultiLineString(m).is_line_kind(),
        !Geometry::Point.is_line_kind(),
        !Geometry::Polygon.is_line_kind(),
        !Geometry::MultiPoint.is_line_kind(),
        !Geometry::MultiPolygon.is_line_kind(),
        !Geometry::GeometryCollection.is_line_kind(),
        !Geometry::Rect.is_line_kind(),
        !Geometry::Triangle.is_line_kind(),
        !Geometry::Line.is_line_kind(),
        all_line_kind(gs) <==> forall|i: int|
            0 <= i < gs.len() ==> match #[trigger] gs[i] {
                None => true,
                Some(Geometry::LineString(_)) => true,
                Some(Geometry::MultiLineString(_)) => true,
                Some(_) => false,
            },
{
    assert(all_line_kind(gs) ==> forall|i: int|
        0 <= i < gs.len() ==> match #[trigger] gs[i] {
            None => true,
            Some(Geometry::LineString(_)) => true,
            Some(Geometry::MultiLineString(_)) => true,
            Some(_) => false,
        });
}

/// What a builder of dimension `d` records for a pushed geometry: nothing for `None`; for a
/// line string, one line string with its coordinates; for a multi line string, all its line
/// strings, in order, each with all its coordinates, in order; every coordinate cut to its
/// first `d` values.
pub proof fn a_pushed_geometry_keeps_all_its_line_strings(g: Option<Geometry>, d: Dimension)
    ensures
        g is None ==> geometry_slot(g, d) is None,
        g matches Some(Geometry::LineString(ls)) ==> geometry_slot(g, d) matches Some(rs) && {
            &&& rs.len() == 1
            &&& rs[0].len() == ls@.len()
            &&& forall|j: int| 0 <= j < ls@.len() ==> #[trigger] rs[0][j] == ls@[j]@.take(
                d.spec_size() as int,
            )
        },
        g matches Some(Geometry::MultiLineString(m)) ==> geometry_slot(g, d) matches Some(rs) && {
            &&& rs.len() == m@.len()
            &&& forall|k: int| 0 <= k < m@.len() ==> #[trigger] rs[k].len() == m@[k]@.len()
            &&& forall|k: int, j: int|
                0 <= k < m@.len() && 0 <= j < m@[k]@.len() ==> #[trigger] rs[k][j] == m@[k]@[j]@.take(
                    d.spec_size() as int,
                )
        },
{
    if let Some(Geometry::LineString(ls)) = g {
        assert forall|j: int| 0 <= j < ls@.len() implies ls.deep_view()[j] == ls@[j]@ by {
            assert(ls@[j].deep_view() =~= ls@[j]@);
        }
    }
    if let Some(Geometry::MultiLineString(m)) = g {
        assert forall|k: int, j: int| 0 <= k < m@.len() && 0 <= j < m@[k]@.len() implies m.deep_view()[k][j]
            == m@[k]@[j]@ by {
            assert(m.deep_view()[k] == m@[k].deep_view());
            assert(m@[k]@[j].deep_view() =~= m@[k]@[j]@);
        }
        assert forall|k: int| 0 <= k < m@.len() implies m.deep_view()[k].len() == m@[k]@.len() by {
            assert(m.deep_view()[k] == m@[k].deep_view());
        }
    }
}

/// Appending geometries in a batch records each one exactly as pushing it alone does: one slot
/// per geometry, in order.
pub proof fn batch_of_geometries_is_single_pushes(gs: Seq<Option<Geometry>>, d: Dimension)
    ensures
        geometry_slots(gs, d).len() == gs.len(),
        forall|i: int| 0 <= i < gs.len() ==> #[trigger] geometry_slots(gs, d)[i] == geometry_slot(gs[i], d),
{
}

/// What a builder of dimension `d` records for a nullable multi line string: a null slot for
/// `None` only; for every present one, even one with no line strings, a slot holding all its line
/// strings, in order, each coordinate cut to its first `d` values. A batch records one such slot
/// per input, in order.
pub proof fn a_batch_of_multi_line_strings_is_single_pushes(
    gs: Seq<Option<Seq<Seq<Seq<u64>>>>>,
    d: Dimension,
)
    ensures
        multi_line_string_slots(gs, d).len() == gs.len(),
        forall|i: int|
            0 <= i < gs.len() ==> #[trigger] multi_line_string_slots(gs, d)[i]
                == multi_line_string_slot(gs[i], d),
        forall|i: int| 0 <= i < gs.len() ==> (#[trigger] multi_line_string_slot(gs[i], d) is Some
            <==> gs[i] is Some),
        forall|i: int, k: int, j: int|
            0 <= i < gs.len() && gs[i] is Some && 0 <= k < gs[i]->0.len() && 0 <= j < gs[i]->0[k].len()
                ==> {
                &&& multi_line_string_slot(gs[i], d)->0.len() == gs[i]->0.len()
                &&& multi_line_string_slot(gs[i], d)->0[k].len() == gs[i]->0[k].len()
                &&& #[trigger] multi_line_string_slot(gs[i], d)->0[k][j] == gs[i]->0[k][j].take(
                    d.spec_size() as int,
                )
            },
{
}

/// Multi line strings given without nulls become one present slot each, in order: none is
/// dropped or moved, empty ones included.
pub proof fn every_multi_line_string_becomes_one_present_slot(ms: Seq<Seq<Seq<Seq<u64>>>>)
    ensures
        as_present(ms).len() == ms.len(),
        forall|i: int| 0 <= i < ms.len() ==> #[trigger] as_present(ms)[i] == Some(ms[i]),
{
}

/// A batch of geometries stops early only at a geometry of another kind or at a geometry offset
/// past `i32::MAX`: when every geometry is null, a line string or a multi line string and the
/// geometry offsets fit, all of them are taken; where fewer are taken, the first one left out is
/// of another kind or would push the geometry offset past `i32::MAX`.
pub proof fn batches_stop_only_at_wrong_kind_or_overflow(
    ge: int,
    gs: Seq<Option<Geometry>>,
    d: Dimension,
)
    requires
        ge <= i32::MAX,
    ensures
        (forall|i: int|
            0 <= i < gs.len() ==> match #[trigger] gs[i] {
                None => true,
                Some(Geometry::LineString(_)) => true,
                Some(Geometry::MultiLineString(_)) => true,
                Some(_) => false,
            }) && ge + sum_rings(geometry_slots(gs, d)) <= i32::MAX ==> accepted_len(ge, gs, d)
            == gs.len(),
        accepted_len(ge, gs, d) <= gs.len(),
        accepted_len(ge, gs, d) < gs.len() ==> {
            let n = accepted_len(ge, gs, d) as int;
            ||| gs[n] matches Some(g) && !g.is_line_kind()
            ||| ge + sum_rings(geometry_slots(gs.take(n + 1), d)) > i32::MAX
        },
{
    if (forall|i: int|
        0 <= i < gs.len() ==> match #[trigger] gs[i] {
            None => true,
            Some(Geometry::LineString(_)) => true,
            Some(Geometry::MultiLineString(_)) => true,
            Some(_) => false,
        }) {
        assert(all_line_kind(gs));
    }
    lemma_accepted_bounds(ge, gs, d);
    let n = accepted_len(ge, gs, d) as int;
    if n < gs.len() {
        lemma_accepted_is_maximal(ge, gs, d);
        if !(gs[n] matches Some(g) && !g.is_line_kind()) {
            assert forall|i: int| 0 <= i < n + 1 implies (#[trigger] gs.take(n + 1)[i] matches Some(
                g,
            ) ==> g.is_line_kind()) by {
                if i < n {
                    assert(gs.take(n + 1)[i] == gs.take(n)[i]);
                }
            }
        }
    }
}

/// The geometries taken can all be pushed, and there are no more of them than given.
proof fn lemma_accepted_bounds(ge: int, gs: Seq<Option<Geometry>>, d: Dimension)
    requires
        ge <= i32::MAX,
    ensures
        accepted_len(ge, gs, d) <= gs.len(),
        accepts(ge, gs.take(accepted_len(ge, gs, d) as int), d),
    decreases gs.len(),
{
    if gs.len() == 0 {
        assert(gs.take(0) =~= gs);
        assert(geometry_slots(gs, d) =~= Seq::<Option<RingsValue>>::empty());
    } else if accepts(ge, gs, d) {
        assert(gs.take(gs.len() as int) =~= gs);
    } else {
        let dl = gs.drop_last();
        lemma_accepted_bounds(ge, dl, d);
        let n = accepted_len(ge, dl, d) as int;
        assert(dl.take(n) =~= gs.take(n));
    }
}

/// Where not all geometries are taken, one more could not be.
proof fn lemma_accepted_is_maximal(ge: int, gs: Seq<Option<Geometry>>, d: Dimension)
    requires
        ge <= i32::MAX,
        accepted_len(ge, gs, d) < gs.len(),
    ensures
        !accepts(ge, gs.take(accepted_len(ge, gs, d) as int + 1), d),
    decreases gs.len(),
{
    let dl = gs.drop_last();
    let n = accepted_len(ge, gs, d) as int;
    if n + 1 == gs.len() {
        assert(gs.take(n + 1) =~= gs);
    } else {
        lemma_accepted_bounds(ge, dl, d);
        lemma_accepted_is_maximal(ge, dl, d);
        assert(dl.take(n + 1) =~= gs.take(n + 1));
    }
}

} // verus!
