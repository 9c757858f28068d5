//! Counting the room that geometries will take in a builder.
use vstd::prelude::*;

use crate::error::{incorrect_type_error, incorrect_type_message, GeoArrowError};
use crate::geometry::{geometry_lines, Geometry, LineString, MultiLineString};
use crate::layout::{
    flatten, lemma_flatten_take_step, lemma_sums_take_monotone, lemma_take_step, slot_rings,
    sum_coords, sum_rings, total_coords, RingsValue,
};

verus! {

/// Room to reserve in a builder: numbers of coordinates, line strings and geometries.
#[derive(Debug, Clone, Copy)]
pub struct MultiLineStringCapacity {
    pub coord_capacity: usize,
    pub ring_capacity: usize,
    pub geom_capacity: usize,
}

/// The line strings of each nullable geometry, as written (`None` for a null slot; no line
/// strings for a geometry of another kind).
pub open spec fn geometry_line_slots(gs: Seq<Option<Geometry>>) -> Seq<Option<RingsValue>> {
    gs.map_values(
        |g: Option<Geometry>|
            match g {
                Some(geo) => Some(geo.spec_lines()),
                None => None,
            },
    )
}

/// Every geometry present is a line string or a multi line string.
pub open spec fn all_line_kind(gs: Seq<Option<Geometry>>) -> bool {
    forall|i: int| 0 <= i < gs.len() ==> (#[trigger] gs[i] matches Some(g) ==> g.is_line_kind())
}

/// The number of coordinates in all the line strings of `ls`.
proof fn lemma_one_line_total(ls: Seq<Seq<u64>>)
    ensures
        total_coords(seq![ls]) == ls.len(),
{
    reveal_with_fuel(flatten, 2);
    assert(seq![ls].drop_last() =~= Seq::<Seq<Seq<u64>>>::empty());
}

impl MultiLineStringCapacity {
    /// Room for the given numbers of coordinates, line strings and geometries.
    pub fn new(coord_capacity: usize, ring_capacity: usize, geom_capacity: usize) -> (r: Self)
        ensures
            r.coord_capacity == coord_capacity,
            r.ring_capacity == ring_capacity,
            r.geom_capacity == geom_capacity,
    {
        MultiLineStringCapacity { coord_capacity, ring_capacity, geom_capacity }
    }

    /// No room.
    pub fn new_empty() -> (r: Self)
        ensures
            r.coord_capacity == 0,
            r.ring_capacity == 0,
            r.geom_capacity == 0,
    {
        Self::new(0, 0, 0)
    }

    /// Counts one more line string (as a geometry of one line string), or a null slot.
    pub fn add_line_string(&mut self, line_string: Option<&LineString>)
        requires
            old(self).geom_capacity + 1 <= usize::MAX,
            line_string matches Some(ls) ==> {
                &&& old(self).ring_capacity + 1 <= usize::MAX
                &&& old(self).coord_capacity + ls@.len() <= usize::MAX
            },
        ensures
            final(self).geom_capacity == old(self).geom_capacity + 1,
            line_string is None ==> final(self).ring_capacity == old(self).ring_capacity
                && final(self).coord_capacity == old(self).coord_capacity,
            line_string matches Some(ls) ==> final(self).ring_capacity == old(self).ring_capacity
                + 1 && final(self).coord_capacity == old(self).coord_capacity + ls@.len(),
    {
        self.geom_capacity = self.geom_capacity + 1;
        if let Some(line_string) = line_string {
            self.ring_capacity = self.ring_capacity + 1;
            self.coord_capacity = self.coord_capacity + line_string.len();
        }
    }

    /// Counts one more multi line string, or a null slot.
    pub fn add_multi_line_string(&mut self, multi_line_string: Option<&MultiLineString>)
        requires
            old(self).geom_capacity + 1 <= usize::MAX,
            multi_line_string matches Some(m) ==> {
                &&& old(self).ring_capacity + m@.len() <= usize::MAX
                &&& old(self).coord_capacity + total_coords(m.deep_view()) <= usize::MAX
            },
        ensures
            final(self).geom_capacity == old(self).geom_capacity + 1,
            multi_line_string is None ==> final(self).ring_capacity == old(self).ring_capacity
                && final(self).coord_capacity == old(self).coord_capacity,
            multi_line_string matches Some(m) ==> final(self).ring_capacity == old(
                self,
            ).ring_capacity + m@.len() && final(self).coord_capacity == old(self).coord_capacity
                + total_coords(m.deep_view()),
    {
        self.geom_capacity = self.geom_capacity + 1;
        if let Some(multi_line_string) = multi_line_string {
            let ghost mv = multi_line_string.deep_view();
            let ghost c0 = self.coord_capacity;
            self.ring_capacity = self.ring_capacity + multi_line_string.len();
            let mut k: usize = 0;
            while k < multi_line_string.len()
                invariant
                    k <= multi_line_string@.len(),
                    mv == multi_line_string.deep_view(),
                    mv.len() == multi_line_string@.len(),
                    c0 + total_coords(mv) <= usize::MAX,
                    self.coord_capacity == c0 + flatten(mv.take(k as int)).len(),
                    self.geom_capacity == old(self).geom_capacity + 1,
                    self.ring_capacity == old(self).ring_capacity + multi_line_string@.len(),
                decreases multi_line_string@.len() - k,
            {
                proof {
                    lemma_flatten_take_step(mv, k as int);
                    crate::layout::lemma_flatten_take_monotone(mv, k + 1, mv.len() as int);
                    assert(mv.take(mv.len() as int) =~= mv);
                    assert(mv[k as int].len() == multi_line_string@[k as int]@.len());
                }
                self.coord_capacity = self.coord_capacity + multi_line_string[k].len();
                k += 1;
            }
            assert(mv.take(mv.len() as int) =~= mv);
        }
    }

    /// Counts one more geometry, or a null slot.
    ///
    /// Errors, leaving the counts as they were, on a geometry that is neither a line string nor
    /// a multi line string.
    pub fn add_geometry(&mut self, value: Option<&Geometry>) -> (r: Result<(), GeoArrowError>)
        requires
            old(self).geom_capacity + 1 <= usize::MAX,
            value matches Some(g) ==> {
                &&& old(self).ring_capacity + g.spec_lines().len() <= usize::MAX
                &&& old(self).coord_capacity + total_coords(g.spec_lines()) <= usize::MAX
            },
        ensures
            match value {
                Some(g) if !g.is_line_kind() => {
                    &&& r matches Err(GeoArrowError::General(m)) && m@ == incorrect_type_message()
                    &&& *final(self) == *old(self)
                },
                _ => {
                    &&& r is Ok
                    &&& final(self).geom_capacity == old(self).geom_capacity + 1
                    &&& final(self).ring_capacity == old(self).ring_capacity + geometry_lines(
                        match value {
                            Some(g) => Some(*g),
                            None => None,
                        },
                    ).len()
                    &&& final(self).coord_capacity == old(self).coord_capacity + total_coords(
                        geometry_lines(
                            match value {
                                Some(g) => Some(*g),
                                None => None,
                            },
                        ),
                    )
                },
            },
    {
        if let Some(geom) = value {
            match geom {
                Geometry::LineString(g) => {
                    proof {
                        lemma_one_line_total(g.deep_view());
                    }
                    self.add_line_string(Some(g))
                },
                Geometry::MultiLineString(g) => self.add_multi_line_string(Some(g)),
                _ => return Err(incorrect_type_error()),
            }
        } else {
            self.geom_capacity = self.geom_capacity + 1;
        }
        Ok(())
    }

    /// The room that the nullable multi line strings `geoms` take.
    pub fn from_multi_line_strings(geoms: &[Option<&MultiLineString>]) -> (r: Self)
        requires
            sum_rings(geoms.deep_view()) <= usize::MAX,
            sum_coords(geoms.deep_view()) <= usize::MAX,
        ensures
            r.geom_capacity == geoms@.len(),
            r.ring_capacity == sum_rings(geoms.deep_view()),
            r.coord_capacity == sum_coords(geoms.deep_view()),
    {
        let ghost gs = geoms.deep_view();
        let mut counter = Self::new_empty();
        let mut i: usize = 0;
        while i < geoms.len()
            invariant
                i <= geoms@.len(),
                gs == geoms.deep_view(),
                gs.len() == geoms@.len(),
                sum_rings(gs) <= usize::MAX,
                sum_coords(gs) <= usize::MAX,
                counter.geom_capacity == i,
                counter.ring_capacity == sum_rings(gs.take(i as int)),
                counter.coord_capacity == sum_coords(gs.take(i as int)),
            decreases geoms@.len() - i,
        {
            proof {
                lemma_take_step(gs, i as int);
                lemma_sums_take_monotone(gs, i + 1);
                assert(gs[i as int] == geoms@[i as int].deep_view());
            }
            counter.add_multi_line_string(geoms[i]);
            i += 1;
        }
        assert(gs.take(gs.len() as int) =~= gs);
        counter
    }

    /// The room that the nullable geometries `geoms` take.
    ///
    /// Errors iff some geometry is neither a line string nor a multi line string.
    pub fn from_geometries(geoms: &[Option<Geometry>]) -> (r: Result<Self, GeoArrowError>)
        requires
            sum_rings(geometry_line_slots(geoms@)) <= usize::MAX,
            sum_coords(geometry_line_slots(geoms@)) <= usize::MAX,
        ensures
            !all_line_kind(geoms@) ==> (r matches Err(GeoArrowError::General(m)) && m@
                == incorrect_type_message()),
            all_line_kind(geoms@) ==> (r matches Ok(c) && c.geom_capacity == geoms@.len()
                && c.ring_capacity == sum_rings(geometry_line_slots(geoms@)) && c.coord_capacity
                == sum_coords(geometry_line_slots(geoms@))),
    {
        let ghost gs = geometry_line_slots(geoms@);
        let mut counter = Self::new_empty();
        let mut i: usize = 0;
        while i < geoms.len()
            invariant
                i <= geoms@.len(),
                gs == geometry_line_slots(geoms@),
                gs.len() == geoms@.len(),
                sum_rings(gs) <= usize::MAX,
                sum_coords(gs) <= usize::MAX,
                all_line_kind(geoms@.take(i as int)),
                counter.geom_capacity == i,
                counter.ring_capacity == sum_rings(gs.take(i as int)),
                counter.coord_capacity == sum_coords(gs.take(i as int)),
            decreases geoms@.len() - i,
        {
            proof {
                lemma_take_step(gs, i as int);
                lemma_sums_take_monotone(gs, i + 1);
                assert(slot_rings(gs[i as int]) == geometry_lines(geoms@[i as int]));
            }
            let r = counter.add_geometry(geoms[i].as_ref());
            if r.is_err() {
                proof {
                    assert(!all_line_kind(geoms@) && geoms@[i as int] is Some);
                }
                return r.map(|_u: ()| counter);
            }
            i += 1;
            proof {
                assert forall|j: int| 0 <= j < i implies (#[trigger] geoms@.take(i as int)[j] matches Some(
                    g,
                ) ==> g.is_line_kind()) by {
                    if j < i - 1 {
                        assert(geoms@.take(i as int)[j] == geoms@.take(i - 1)[j]);
                    }
                }
            }
        }
        assert(gs.take(gs.len() as int) =~= gs);
        assert(geoms@.take(geoms@.len() as int) =~= geoms@);
        Ok(counter)
    }
}

} // verus!
