//! The nested-list layout shared by line-string collections and polygons: a geometry is a
//! range of rings (or line strings), a ring is a range of coordinates.
use vstd::prelude::*;

use crate::offsets::{last_offset, offsets_wf};

verus! {

/// A coordinate: the bit patterns of its values.
pub type CoordValue = Seq<u64>;

/// A line string, or a ring: its coordinates in order.
pub type RingValue = Seq<CoordValue>;

/// A geometry made of rings: a multi line string, or a polygon.
pub type RingsValue = Seq<RingValue>;

/// The coordinates of ring `j`: those from `r[j]` up to `r[j + 1]`.
pub open spec fn ring_at(r: Seq<i32>, c: Seq<CoordValue>, j: int) -> RingValue {
    c.subrange(r[j] as int, r[j + 1] as int)
}

/// The rings of geometry `i`: those from `g[i]` up to `g[i + 1]`.
pub open spec fn geom_at(g: Seq<i32>, r: Seq<i32>, c: Seq<CoordValue>, i: int) -> RingsValue {
    Seq::new((g[i + 1] - g[i]) as nat, |k: int| ring_at(r, c, g[i] + k))
}

/// The geometries that geometry offsets `g`, ring offsets `r`, coordinates `c` and
/// validity bits `v` stand for; a slot whose bit is `false` is null.
pub open spec fn decode(g: Seq<i32>, r: Seq<i32>, c: Seq<CoordValue>, v: Seq<bool>) -> Seq<
    Option<RingsValue>,
> {
    Seq::new(
        (g.len() - 1) as nat,
        |i: int|
            if v[i] {
                Some(geom_at(g, r, c, i))
            } else {
                None
            },
    )
}

/// The parts fit together: both offset sequences are valid, there is one validity bit per
/// geometry, the last geometry offset is the number of rings, and the last ring offset is
/// the number of coordinates.
pub open spec fn layout_consistent(g: Seq<i32>, r: Seq<i32>, num_coords: int, num_bits: int) -> bool {
    &&& offsets_wf(g)
    &&& offsets_wf(r)
    &&& num_bits == g.len() - 1
    &&& last_offset(g) == r.len() - 1
    &&& last_offset(r) == num_coords
}

/// All the coordinates of the rings of `m`, ring after ring.
pub open spec fn flatten(m: RingsValue) -> Seq<CoordValue>
    decreases m.len(),
{
    if m.len() == 0 {
        Seq::empty()
    } else {
        flatten(m.drop_last()) + m.last()
    }
}

/// The number of coordinates in all the rings of `m`.
pub open spec fn total_coords(m: RingsValue) -> int {
    flatten(m).len() as int
}

/// The ring offsets that follow `start` when the rings of `m` are appended:
/// the end of each ring, counted from `start`.
pub open spec fn ring_ends(start: int, m: RingsValue) -> Seq<i32>
    decreases m.len(),
{
    if m.len() == 0 {
        Seq::empty()
    } else {
        ring_ends(start, m.drop_last()).push((start + total_coords(m)) as i32)
    }
}

/// The flattened coordinates of the first `j` rings lead those of all the rings.
pub proof fn lemma_flatten_prefix(m: RingsValue, j: int)
    requires
        0 <= j <= m.len(),
    ensures
        flatten(m.take(j)).len() <= flatten(m).len(),
        flatten(m).subrange(0, flatten(m.take(j)).len() as int) == flatten(m.take(j)),
    decreases m.len(),
{
    if j == m.len() {
        assert(m.take(j) =~= m);
        assert(flatten(m).subrange(0, flatten(m).len() as int) =~= flatten(m));
    } else {
        let d = m.drop_last();
        assert(d.take(j) =~= m.take(j));
        lemma_flatten_prefix(d, j);
        let p = flatten(m.take(j));
        assert(flatten(m) == flatten(d) + m.last());
        assert(flatten(m).subrange(0, p.len() as int) =~= flatten(d).subrange(0, p.len() as int));
    }
}

/// Taking one more ring appends that ring's coordinates.
pub proof fn lemma_flatten_take_step(m: RingsValue, k: int)
    requires
        0 <= k < m.len(),
    ensures
        flatten(m.take(k + 1)) == flatten(m.take(k)) + m[k],
{
    assert(m.take(k + 1).drop_last() =~= m.take(k));
    assert(m.take(k + 1).last() == m[k]);
}

/// The flattened length only grows as more rings are taken.
pub proof fn lemma_flatten_take_monotone(m: RingsValue, a: int, b: int)
    requires
        0 <= a <= b <= m.len(),
    ensures
        flatten(m.take(a)).len() <= flatten(m.take(b)).len(),
    decreases b - a,
{
    if a < b {
        lemma_flatten_take_step(m, b - 1);
        lemma_flatten_take_monotone(m, a, b - 1);
    }
}

/// The ring ends: one per ring, the `k`-th is `start` plus the coordinates of the first `k + 1` rings.
pub proof fn lemma_ring_ends(start: int, m: RingsValue)
    ensures
        ring_ends(start, m).len() == m.len(),
        forall|k: int|
            0 <= k < m.len() ==> ring_ends(start, m)[k] as int == (start + flatten(
                m.take(k + 1),
            ).len()) as i32 as int,
    decreases m.len(),
{
    if m.len() > 0 {
        let d = m.drop_last();
        lemma_ring_ends(start, d);
        assert forall|k: int| 0 <= k < m.len() implies ring_ends(start, m)[k] as int == (start
            + flatten(m.take(k + 1)).len()) as i32 as int by {
            if k < m.len() - 1 {
                assert(d.take(k + 1) =~= m.take(k + 1));
            } else {
                assert(m.take(k + 1) =~= m);
            }
        }
    }
}

/// Appending one geometry with rings `m` (a null slot when `valid` is false, with `m` empty)
/// keeps the parts consistent and appends that geometry to what they stand for.
pub proof fn lemma_push_geometry(
    g: Seq<i32>,
    r: Seq<i32>,
    c: Seq<CoordValue>,
    v: Seq<bool>,
    m: RingsValue,
    valid: bool,
)
    requires
        layout_consistent(g, r, c.len() as int, v.len() as int),
        !valid ==> m.len() == 0,
        last_offset(g) + m.len() <= i32::MAX,
        last_offset(r) + total_coords(m) <= i32::MAX,
    ensures
        ({
            let g2 = g.push((last_offset(g) + m.len()) as i32);
            let r2 = r + ring_ends(last_offset(r), m);
            let c2 = c + flatten(m);
            let v2 = v.push(valid);
            &&& layout_consistent(g2, r2, c2.len() as int, v2.len() as int)
            &&& decode(g2, r2, c2, v2) == decode(g, r, c, v).push(
                if valid {
                    Some(m)
                } else {
                    None
                },
            )
        }),
{
    let s = last_offset(r);
    let g2 = g.push((last_offset(g) + m.len()) as i32);
    let re = ring_ends(s, m);
    let r2 = r + re;
    let c2 = c + flatten(m);
    let v2 = v.push(valid);
    lemma_ring_ends(s, m);
    assert(m.take(m.len() as int) =~= m);
    // Every ring offset past the old ones sits at `s` plus the coordinates of the rings before it.
    assert forall|k: int| 0 <= k <= m.len() implies #[trigger] r2[r.len() - 1 + k] as int == s
        + flatten(m.take(k)).len() by {
        if k == 0 {
            assert(m.take(0) =~= Seq::<RingValue>::empty());
        } else {
            lemma_flatten_prefix(m, k);
        }
    }
    // The new ring offsets never decrease and stay within the new coordinates.
    assert forall|i: int, j: int| 0 <= i <= j < r2.len() implies r2[i] <= r2[j] by {
        if i >= r.len() - 1 {
            let a = i - (r.len() - 1);
            let b = j - (r.len() - 1);
            lemma_flatten_take_monotone(m, a, b);
            assert(r2[r.len() - 1 + a] as int == s + flatten(m.take(a)).len());
            assert(r2[r.len() - 1 + b] as int == s + flatten(m.take(b)).len());
        } else if j >= r.len() {
            let b = j - (r.len() - 1);
            assert(r2[r.len() - 1 + b] as int == s + flatten(m.take(b)).len());
            assert(r2[i] == r[i] && r[i] <= r[r.len() - 1]);
        } else {
            assert(r2[i] == r[i] && r2[j] == r[j]);
        }
    }
    assert(r2[r2.len() - 1] == r2[r.len() - 1 + m.len()]);
    assert(offsets_wf(g2)) by {
        assert forall|i: int, j: int| 0 <= i <= j < g2.len() implies g2[i] <= g2[j] by {
            if j == g2.len() - 1 && i < j {
                assert(g[i] <= g[g.len() - 1]);
            }
        }
    }
    assert(layout_consistent(g2, r2, c2.len() as int, v2.len() as int));
    // The rings of the new geometry are the rings of `m`.
    assert forall|k: int| 0 <= k < m.len() implies #[trigger] ring_at(r2, c2, r.len() - 1 + k)
        == m[k] by {
        let a = flatten(m.take(k)).len() as int;
        let b = flatten(m.take(k + 1)).len() as int;
        assert(r2[r.len() - 1 + k] as int == s + a);
        assert(r2[r.len() - 1 + (k + 1)] as int == s + b);
        lemma_flatten_prefix(m, k + 1);
        lemma_flatten_take_step(m, k);
        assert(c2.subrange(s + a, s + b) =~= flatten(m).subrange(a, b));
        assert(flatten(m).subrange(a, b) =~= flatten(m).subrange(0, b).subrange(a, b));
        assert(flatten(m.take(k + 1)).subrange(a, b) =~= m[k]);
    }
    let old_d = decode(g, r, c, v);
    let new_d = decode(g2, r2, c2, v2);
    assert forall|i: int| 0 <= i < old_d.len() implies new_d[i] == old_d[i] by {
        assert(g2[i] == g[i] && g2[i + 1] == g[i + 1]);
        assert(g[i] <= g[i + 1] && g[i + 1] <= g[g.len() - 1]);
        assert forall|k: int| 0 <= k < g[i + 1] - g[i] implies #[trigger] ring_at(r2, c2, g[i] + k)
            == ring_at(r, c, g[i] + k) by {
            let j = g[i] + k;
            assert(0 <= g[0] <= g[i]);
            assert(r2[j] == r[j] && r2[j + 1] == r[j + 1]);
            assert(r[j] <= r[j + 1] && r[j + 1] <= r[r.len() - 1]);
            assert(c2.subrange(r[j] as int, r[j + 1] as int) =~= c.subrange(
                r[j] as int,
                r[j + 1] as int,
            ));
        }
        assert(geom_at(g2, r2, c2, i) =~= geom_at(g, r, c, i));
    }
    let n = g.len() - 1;
    assert(g2[n] as int == r.len() - 1);
    if valid {
        assert(geom_at(g2, r2, c2, n) =~= m);
    }
    assert(new_d =~= old_d.push(
        if valid {
            Some(m)
        } else {
            None
        },
    ));
}


/// The four parts of the layout, as mathematical values.
pub struct Parts {
    /// Geometry offsets into the rings.
    pub geom_offsets: Seq<i32>,
    /// Ring offsets into the coordinates.
    pub ring_offsets: Seq<i32>,
    /// The coordinates.
    pub coords: Seq<CoordValue>,
    /// One validity bit per geometry.
    pub validity: Seq<bool>,
}

impl Parts {
    /// The parts of an empty builder: both offset sequences hold the single offset 0.
    pub open spec fn empty() -> Parts {
        Parts {
            geom_offsets: seq![0i32],
            ring_offsets: seq![0i32],
            coords: Seq::empty(),
            validity: Seq::empty(),
        }
    }

    pub open spec fn consistent(self) -> bool {
        layout_consistent(
            self.geom_offsets,
            self.ring_offsets,
            self.coords.len() as int,
            self.validity.len() as int,
        )
    }

    /// The geometries the parts stand for.
    pub open spec fn decode(self) -> Seq<Option<RingsValue>> {
        decode(self.geom_offsets, self.ring_offsets, self.coords, self.validity)
    }
}

/// The rings a slot holds: none for a null slot.
pub open spec fn slot_rings(slot: Option<RingsValue>) -> RingsValue {
    match slot {
        Some(m) => m,
        None => Seq::empty(),
    }
}

/// The parts after one slot is appended: the offsets grow by its rings and coordinates, its
/// coordinates follow the others, and its validity bit is whether it holds a geometry.
pub open spec fn push_parts(p: Parts, slot: Option<RingsValue>) -> Parts {
    let m = slot_rings(slot);
    Parts {
        geom_offsets: p.geom_offsets.push((last_offset(p.geom_offsets) + m.len()) as i32),
        ring_offsets: p.ring_offsets + ring_ends(last_offset(p.ring_offsets), m),
        coords: p.coords + flatten(m),
        validity: p.validity.push(slot is Some),
    }
}

/// The parts after the slots are appended one after another.
pub open spec fn push_all(p: Parts, slots: Seq<Option<RingsValue>>) -> Parts
    decreases slots.len(),
{
    if slots.len() == 0 {
        p
    } else {
        push_parts(push_all(p, slots.drop_last()), slots.last())
    }
}

/// The number of rings in all the slots.
pub open spec fn sum_rings(slots: Seq<Option<RingsValue>>) -> int
    decreases slots.len(),
{
    if slots.len() == 0 {
        0
    } else {
        sum_rings(slots.drop_last()) + slot_rings(slots.last()).len()
    }
}

/// The number of coordinates in all the slots.
pub open spec fn sum_coords(slots: Seq<Option<RingsValue>>) -> int
    decreases slots.len(),
{
    if slots.len() == 0 {
        0
    } else {
        sum_coords(slots.drop_last()) + total_coords(slot_rings(slots.last()))
    }
}

/// Room for the slots: the offsets they bring still fit in an `i32`.
pub open spec fn slots_fit(p: Parts, slots: Seq<Option<RingsValue>>) -> bool {
    &&& last_offset(p.geom_offsets) + sum_rings(slots) <= i32::MAX
    &&& last_offset(p.ring_offsets) + sum_coords(slots) <= i32::MAX
}

/// Room for one slot.
pub open spec fn slot_fits(p: Parts, slot: Option<RingsValue>) -> bool {
    &&& last_offset(p.geom_offsets) + slot_rings(slot).len() <= i32::MAX
    &&& last_offset(p.ring_offsets) + total_coords(slot_rings(slot)) <= i32::MAX
}

/// Appending a slot to consistent parts, where it fits, keeps them consistent and appends it
/// to what they stand for.
pub proof fn lemma_push_parts(p: Parts, slot: Option<RingsValue>)
    requires
        p.consistent(),
        slot_fits(p, slot),
    ensures
        push_parts(p, slot).consistent(),
        push_parts(p, slot).decode() == p.decode().push(slot),
        last_offset(push_parts(p, slot).geom_offsets) == last_offset(p.geom_offsets) + slot_rings(
            slot,
        ).len(),
        last_offset(push_parts(p, slot).ring_offsets) == last_offset(p.ring_offsets)
            + total_coords(slot_rings(slot)),
{
    lemma_push_geometry(
        p.geom_offsets,
        p.ring_offsets,
        p.coords,
        p.validity,
        slot_rings(slot),
        slot is Some,
    );
}

/// The sums only grow as more slots are taken.
pub proof fn lemma_sums_take_monotone(slots: Seq<Option<RingsValue>>, k: int)
    requires
        0 <= k <= slots.len(),
    ensures
        0 <= sum_rings(slots.take(k)) <= sum_rings(slots),
        0 <= sum_coords(slots.take(k)) <= sum_coords(slots),
    decreases slots.len(),
{
    if slots.len() > 0 {
        if k == slots.len() {
            assert(slots.take(k) =~= slots);
            lemma_sums_take_monotone(slots.drop_last(), k - 1);
        } else {
            assert(slots.drop_last().take(k) =~= slots.take(k));
            lemma_sums_take_monotone(slots.drop_last(), k);
        }
    }
}

/// One more slot taken: the parts, the sums and the fit follow step by step.
pub proof fn lemma_take_step(slots: Seq<Option<RingsValue>>, k: int)
    requires
        0 <= k < slots.len(),
    ensures
        slots.take(k + 1).drop_last() == slots.take(k),
        slots.take(k + 1).last() == slots[k],
        sum_rings(slots.take(k + 1)) == sum_rings(slots.take(k)) + slot_rings(slots[k]).len(),
        sum_coords(slots.take(k + 1)) == sum_coords(slots.take(k)) + total_coords(
            slot_rings(slots[k]),
        ),
        forall|p: Parts|
            #![trigger push_all(p, slots.take(k + 1))]
            push_all(p, slots.take(k + 1)) == push_parts(push_all(p, slots.take(k)), slots[k]),
{
    assert(slots.take(k + 1).drop_last() =~= slots.take(k));
}

/// Appending slots to consistent parts, where they fit, keeps them consistent and appends them
/// to what they stand for.
pub proof fn lemma_push_all(p: Parts, slots: Seq<Option<RingsValue>>)
    requires
        p.consistent(),
        slots_fit(p, slots),
    ensures
        push_all(p, slots).consistent(),
        push_all(p, slots).decode() == p.decode() + slots,
        last_offset(push_all(p, slots).geom_offsets) == last_offset(p.geom_offsets) + sum_rings(
            slots,
        ),
        last_offset(push_all(p, slots).ring_offsets) == last_offset(p.ring_offsets) + sum_coords(
            slots,
        ),
    decreases slots.len(),
{
    if slots.len() == 0 {
        assert(p.decode() + slots =~= p.decode());
    } else {
        let d = slots.drop_last();
        lemma_sums_take_monotone(slots, slots.len() - 1);
        assert(slots.take(slots.len() - 1) =~= d);
        lemma_push_all(p, d);
        let q = push_all(p, d);
        assert(total_coords(slot_rings(slots.last())) >= 0);
        lemma_push_parts(q, slots.last());
        assert(p.decode() + slots =~= (p.decode() + d).push(slots.last()));
    }
}

/// Appending a slot, where it fits, moves the last offsets on by its rings and coordinates,
/// whether or not the parts fit together.
pub proof fn lemma_push_parts_ends(p: Parts, slot: Option<RingsValue>)
    requires
        p.geom_offsets.len() >= 1,
        p.ring_offsets.len() >= 1,
        slot_fits(p, slot),
        last_offset(p.geom_offsets) >= 0,
        last_offset(p.ring_offsets) >= 0,
    ensures
        push_parts(p, slot).geom_offsets.len() >= 1,
        push_parts(p, slot).ring_offsets.len() >= 1,
        last_offset(push_parts(p, slot).geom_offsets) == last_offset(p.geom_offsets) + slot_rings(
            slot,
        ).len(),
        last_offset(push_parts(p, slot).ring_offsets) == last_offset(p.ring_offsets)
            + total_coords(slot_rings(slot)),
{
    let m = slot_rings(slot);
    let s = last_offset(p.ring_offsets);
    lemma_ring_ends(s, m);
    if m.len() == 0 {
        assert(p.ring_offsets + ring_ends(s, m) =~= p.ring_offsets);
        assert(flatten(m).len() == 0);
    } else {
        assert(m.take(m.len() as int) =~= m);
        let q = push_parts(p, slot).ring_offsets;
        assert(q[q.len() - 1] == ring_ends(s, m)[m.len() - 1]);
    }
}

} // verus!
