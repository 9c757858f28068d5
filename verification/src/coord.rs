use vstd::prelude::*;

use crate::std_wrappers::vec_reserve_exact;

verus! {

/// The number of values each coordinate holds.
#[derive(Debug, Clone, Copy, PartialEq, Eq, Structural)]
pub enum Dimension {
    /// Two values per coordinate: x and y.
    XY,
    /// Three values per coordinate: x, y and z.
    XYZ,
}

impl Dimension {
    pub open spec fn spec_size(self) -> nat {
        match self {
            Dimension::XY => 2,
            Dimension::XYZ => 3,
        }
    }

    /// The number of values each coordinate holds.
    pub fn size(&self) -> (r: usize)
        ensures
            r == self.spec_size(),
    {
        match self {
            Dimension::XY => 2,
            Dimension::XYZ => 3,
        }
    }

    /// The dimension with `size` values per coordinate, where there is one.
    pub fn try_from_size(size: usize) -> (r: Option<Dimension>)
        ensures
            size == 2 ==> r == Some(Dimension::XY),
            size == 3 ==> r == Some(Dimension::XYZ),
            size != 2 && size != 3 ==> r is None,
    {
        if size == 2 {
            Some(Dimension::XY)
        } else if size == 3 {
            Some(Dimension::XYZ)
        } else {
            None
        }
    }
}

/// How the values of the coordinates are laid out.
#[derive(Debug, Clone, Copy, PartialEq, Eq, Structural)]
pub enum CoordType {
    /// One buffer, coordinate after coordinate: `x0, y0, x1, y1, ...`.
    Interleaved,
    /// One buffer per axis: `x0, x1, ...` and `y0, y1, ...`.
    Separated,
}

impl Default for CoordType {
    fn default() -> (r: Self)
        ensures
            r == CoordType::Interleaved,
    {
        CoordType::Interleaved
    }
}

/// The dimension with `n` values per coordinate (3 for anything but 2).
pub open spec fn dimension_of(n: int) -> Dimension {
    if n == 2 {
        Dimension::XY
    } else {
        Dimension::XYZ
    }
}

/// The first `d` values of a coordinate: what a buffer of dimension `d` keeps of it.
pub open spec fn coord_prefix(c: Seq<u64>, d: Dimension) -> Seq<u64> {
    c.take(d.spec_size() as int)
}

/// Room for `additional` more coordinates after `n`, of dimension `d`, laid out as `coord_type`,
/// fits in `isize::MAX` bytes per buffer.
pub open spec fn coord_room(coord_type: CoordType, d: Dimension, n: int, additional: int) -> bool {
    match coord_type {
        CoordType::Interleaved => match d {
            Dimension::XY => (n + additional) * 16 <= isize::MAX,
            Dimension::XYZ => (n + additional) * 24 <= isize::MAX,
        },
        CoordType::Separated => (n + additional) * 8 <= isize::MAX,
    }
}

/// `n` saturated to `usize::MAX` once multiplied by the size of `d`.
fn scaled_capacity(n: usize, d: Dimension) -> (r: usize)
    ensures
        n * d.spec_size() <= usize::MAX ==> r == n * d.spec_size(),
        n * d.spec_size() > usize::MAX ==> r == usize::MAX,
{
    let size = d.size();
    if n > usize::MAX / size {
        usize::MAX
    } else {
        n * size
    }
}

/// Coordinates stored in one buffer, each coordinate's values next to each other.
///
/// The values are the bit patterns of the coordinates' floating-point numbers.
pub struct InterleavedCoordBufferBuilder {
    coords: Vec<u64>,
    dim: Dimension,
}

impl View for InterleavedCoordBufferBuilder {
    type V = Seq<Seq<u64>>;

    closed spec fn view(&self) -> Seq<Seq<u64>> {
        let c = self.coords@;
        match self.dim {
            Dimension::XY => Seq::new(c.len() / 2, |i: int| seq![c[2 * i], c[2 * i + 1]]),
            Dimension::XYZ => Seq::new(
                c.len() / 3,
                |i: int| seq![c[3 * i], c[3 * i + 1], c[3 * i + 2]],
            ),
        }
    }
}

impl InterleavedCoordBufferBuilder {
    #[verifier::type_invariant]
    closed spec fn inv(self) -> bool {
        self.coords@.len() % self.dim.spec_size() == 0
    }

    pub closed spec fn spec_dim(self) -> Dimension {
        self.dim
    }

    /// An empty buffer with room for `capacity` coordinates of dimension `dim`.
    pub fn with_capacity(capacity: usize, dim: Dimension) -> (r: Self)
        ensures
            r@ == Seq::<Seq<u64>>::empty(),
            r.spec_dim() == dim,
    {
        let coords: Vec<u64> = Vec::with_capacity(scaled_capacity(capacity, dim));
        let r = InterleavedCoordBufferBuilder { coords, dim };
        assert(r@ =~= Seq::<Seq<u64>>::empty());
        r
    }

    /// The dimension of the coordinates.
    pub fn dim(&self) -> (r: Dimension)
        ensures
            r == self.spec_dim(),
    {
        self.dim
    }

    /// The number of coordinates.
    pub fn len(&self) -> (r: usize)
        ensures
            r == self@.len(),
    {
        proof {
            use_type_invariant(self);
        }
        self.coords.len() / self.dim.size()
    }

    /// The values of the coordinate at `i`.
    pub fn coord(&self, i: usize) -> (r: Vec<u64>)
        requires
            i < self@.len(),
        ensures
            r@ == self@[i as int],
    {
        proof {
            use_type_invariant(self);
        }
        let n = self.coords.len();
        assert(n == self.coords@.len());
        let mut r: Vec<u64> = Vec::new();
        match self.dim {
            Dimension::XY => {
                r.push(self.coords[2 * i]);
                r.push(self.coords[2 * i + 1]);
            },
            Dimension::XYZ => {
                r.push(self.coords[3 * i]);
                r.push(self.coords[3 * i + 1]);
                r.push(self.coords[3 * i + 2]);
            },
        }
        assert(r@ =~= self@[i as int]);
        r
    }

    /// Takes the contents out, leaving an empty buffer of the same dimension behind.
    fn take_parts(&mut self) -> (r: (Vec<u64>, Dimension))
        ensures
            r.0@.len() % r.1.spec_size() == 0,
            (InterleavedCoordBufferBuilder { coords: r.0, dim: r.1 })@ == old(self)@,
            r.1 == old(self).spec_dim(),
            final(self).spec_dim() == old(self).spec_dim(),
            final(self)@.len() == 0,
    {
        let mut fresh = InterleavedCoordBufferBuilder::with_capacity(0, self.dim);
        std::mem::swap(self, &mut fresh);
        proof {
            use_type_invariant(&fresh);
        }
        let InterleavedCoordBufferBuilder { coords, dim } = fresh;
        (coords, dim)
    }

    /// Appends the first `dim` values of `coord`.
    pub fn push_coord(&mut self, coord: &Vec<u64>)
        requires
            coord@.len() >= old(self).spec_dim().spec_size(),
        ensures
            final(self)@ == old(self)@.push(coord_prefix(coord@, old(self).spec_dim())),
            final(self).spec_dim() == old(self).spec_dim(),
    {
        let ghost old_view = self@;
        let (mut coords, dim) = self.take_parts();
        match dim {
            Dimension::XY => {
                coords.push(coord[0]);
                coords.push(coord[1]);
            },
            Dimension::XYZ => {
                coords.push(coord[0]);
                coords.push(coord[1]);
                coords.push(coord[2]);
            },
        }
        let r = InterleavedCoordBufferBuilder { coords, dim };
        proof {
            assert(coord_prefix(coord@, dim) =~= match dim {
                Dimension::XY => seq![coord@[0], coord@[1]],
                Dimension::XYZ => seq![coord@[0], coord@[1], coord@[2]],
            });
            assert(r@ =~= old_view.push(coord_prefix(coord@, dim)));
        }
        *self = r;
    }

    /// Reserves room for at least `additional` more coordinates.
    pub fn reserve(&mut self, additional: usize)
        ensures
            final(self)@ == old(self)@,
            final(self).spec_dim() == old(self).spec_dim(),
    {
        let (mut coords, dim) = self.take_parts();
        coords.reserve(scaled_capacity(additional, dim));
        *self = InterleavedCoordBufferBuilder { coords, dim };
    }

    /// Reserves room for exactly `additional` more coordinates. The room must fit in
    /// `isize::MAX` bytes: where it does not, the call would panic, which `requires` rules out.
    pub fn reserve_exact(&mut self, additional: usize)
        requires
            coord_room(CoordType::Interleaved, old(self).spec_dim(), old(self)@.len() as int, additional as int),
        ensures
            final(self)@ == old(self)@,
            final(self).spec_dim() == old(self).spec_dim(),
    {
        proof {
            use_type_invariant(&*self);
        }
        let (mut coords, dim) = self.take_parts();
        vec_reserve_exact(&mut coords, scaled_capacity(additional, dim));
        *self = InterleavedCoordBufferBuilder { coords, dim };
    }
}

/// Coordinates stored in one buffer per axis.
///
/// The values are the bit patterns of the coordinates' floating-point numbers.
pub struct SeparatedCoordBufferBuilder {
    x: Vec<u64>,
    y: Vec<u64>,
    z: Vec<u64>,
    dim: Dimension,
}

impl View for SeparatedCoordBufferBuilder {
    type V = Seq<Seq<u64>>;

    closed spec fn view(&self) -> Seq<Seq<u64>> {
        let (x, y, z) = (self.x@, self.y@, self.z@);
        match self.dim {
            Dimension::XY => Seq::new(x.len(), |i: int| seq![x[i], y[i]]),
            Dimension::XYZ => Seq::new(x.len(), |i: int| seq![x[i], y[i], z[i]]),
        }
    }
}

impl SeparatedCoordBufferBuilder {
    #[verifier::type_invariant]
    closed spec fn inv(self) -> bool {
        &&& self.y@.len() == self.x@.len()
        &&& self.dim == Dimension::XYZ ==> self.z@.len() == self.x@.len()
    }

    pub closed spec fn spec_dim(self) -> Dimension {
        self.dim
    }

    /// An empty buffer with room for `capacity` coordinates of dimension `dim`.
    pub fn with_capacity(capacity: usize, dim: Dimension) -> (r: Self)
        ensures
            r@ == Seq::<Seq<u64>>::empty(),
            r.spec_dim() == dim,
    {
        let x: Vec<u64> = Vec::with_capacity(capacity);
        let y: Vec<u64> = Vec::with_capacity(capacity);
        let z: Vec<u64> = match dim {
            Dimension::XY => Vec::new(),
            Dimension::XYZ => Vec::with_capacity(capacity),
        };
        let r = SeparatedCoordBufferBuilder { x, y, z, dim };
        assert(r@ =~= Seq::<Seq<u64>>::empty());
        r
    }

    /// The dimension of the coordinates.
    pub fn dim(&self) -> (r: Dimension)
        ensures
            r == self.spec_dim(),
    {
        self.dim
    }

    /// The number of coordinates.
    pub fn len(&self) -> (r: usize)
        ensures
            r == self@.len(),
    {
        self.x.len()
    }

    /// The values of the coordinate at `i`.
    pub fn coord(&self, i: usize) -> (r: Vec<u64>)
        requires
            i < self@.len(),
        ensures
            r@ == self@[i as int],
    {
        proof {
            use_type_invariant(self);
        }
        let mut r: Vec<u64> = Vec::new();
        r.push(self.x[i]);
        r.push(self.y[i]);
        match self.dim {
            Dimension::XY => {},
            Dimension::XYZ => {
                r.push(self.z[i]);
            },
        }
        assert(r@ =~= self@[i as int]);
        r
    }

    /// Takes the contents out, leaving an empty buffer of the same dimension behind.
    fn take_parts(&mut self) -> (r: (Vec<u64>, Vec<u64>, Vec<u64>, Dimension))
        ensures
            r.1@.len() == r.0@.len(),
            r.3 == Dimension::XYZ ==> r.2@.len() == r.0@.len(),
            (SeparatedCoordBufferBuilder { x: r.0, y: r.1, z: r.2, dim: r.3 })@ == old(self)@,
            r.3 == old(self).spec_dim(),
            final(self).spec_dim() == old(self).spec_dim(),
    {
        let mut fresh = SeparatedCoordBufferBuilder::with_capacity(0, self.dim);
        std::mem::swap(self, &mut fresh);
        proof {
            use_type_invariant(&fresh);
        }
        let SeparatedCoordBufferBuilder { x, y, z, dim } = fresh;
        (x, y, z, dim)
    }

    /// Appends the first `dim` values of `coord`, one to each axis.
    pub fn push_coord(&mut self, coord: &Vec<u64>)
        requires
            coord@.len() >= old(self).spec_dim().spec_size(),
        ensures
            final(self)@ == old(self)@.push(coord_prefix(coord@, old(self).spec_dim())),
            final(self).spec_dim() == old(self).spec_dim(),
    {
        let (mut x, mut y, mut z, dim) = self.take_parts();
        let ghost old_view = (SeparatedCoordBufferBuilder { x, y, z, dim })@;
        x.push(coord[0]);
        y.push(coord[1]);
        match dim {
            Dimension::XY => {},
            Dimension::XYZ => {
                z.push(coord[2]);
            },
        }
        let r = SeparatedCoordBufferBuilder { x, y, z, dim };
        proof {
            assert(coord_prefix(coord@, dim) =~= match dim {
                Dimension::XY => seq![coord@[0], coord@[1]],
                Dimension::XYZ => seq![coord@[0], coord@[1], coord@[2]],
            });
            assert(r@ =~= old_view.push(coord_prefix(coord@, dim)));
        }
        *self = r;
    }

    /// Reserves room for at least `additional` more coordinates.
    pub fn reserve(&mut self, additional: usize)
        ensures
            final(self)@ == old(self)@,
            final(self).spec_dim() == old(self).spec_dim(),
    {
        let (mut x, mut y, mut z, dim) = self.take_parts();
        x.reserve(additional);
        y.reserve(additional);
        if dim == Dimension::XYZ {
            z.reserve(additional);
        }
        *self = SeparatedCoordBufferBuilder { x, y, z, dim };
    }

    /// Reserves room for exactly `additional` more coordinates. The room must fit in
    /// `isize::MAX` bytes: where it does not, the call would panic, which `requires` rules out.
    pub fn reserve_exact(&mut self, additional: usize)
        requires
            coord_room(CoordType::Separated, old(self).spec_dim(), old(self)@.len() as int, additional as int),
        ensures
            final(self)@ == old(self)@,
            final(self).spec_dim() == old(self).spec_dim(),
    {
        proof {
            use_type_invariant(&*self);
        }
        let (mut x, mut y, mut z, dim) = self.take_parts();
        vec_reserve_exact(&mut x, additional);
        vec_reserve_exact(&mut y, additional);
        if dim == Dimension::XYZ {
            vec_reserve_exact(&mut z, additional);
        }
        *self = SeparatedCoordBufferBuilder { x, y, z, dim };
    }
}

/// A growable buffer of coordinates, in one of the two layouts.
pub enum CoordBufferBuilder {
    Interleaved(InterleavedCoordBufferBuilder),
    Separated(SeparatedCoordBufferBuilder),
}

impl View for CoordBufferBuilder {
    type V = Seq<Seq<u64>>;

    open spec fn view(&self) -> Seq<Seq<u64>> {
        match self {
            CoordBufferBuilder::Interleaved(b) => b@,
            CoordBufferBuilder::Separated(b) => b@,
        }
    }
}

impl CoordBufferBuilder {
    pub open spec fn spec_dim(self) -> Dimension {
        match self {
            CoordBufferBuilder::Interleaved(b) => b.spec_dim(),
            CoordBufferBuilder::Separated(b) => b.spec_dim(),
        }
    }

    pub open spec fn spec_coord_type(self) -> CoordType {
        match self {
            CoordBufferBuilder::Interleaved(_) => CoordType::Interleaved,
            CoordBufferBuilder::Separated(_) => CoordType::Separated,
        }
    }

    /// An empty buffer of the given layout with room for `capacity` coordinates of dimension `dim`.
    pub fn with_capacity(capacity: usize, coord_type: CoordType, dim: Dimension) -> (r: Self)
        ensures
            r@ == Seq::<Seq<u64>>::empty(),
            r.spec_dim() == dim,
            r.spec_coord_type() == coord_type,
    {
        match coord_type {
            CoordType::Interleaved => CoordBufferBuilder::Interleaved(
                InterleavedCoordBufferBuilder::with_capacity(capacity, dim),
            ),
            CoordType::Separated => CoordBufferBuilder::Separated(
                SeparatedCoordBufferBuilder::with_capacity(capacity, dim),
            ),
        }
    }

    /// The layout of the buffer.
    pub fn coord_type(&self) -> (r: CoordType)
        ensures
            r == self.spec_coord_type(),
    {
        match self {
            CoordBufferBuilder::Interleaved(_) => CoordType::Interleaved,
            CoordBufferBuilder::Separated(_) => CoordType::Separated,
        }
    }

    /// The dimension of the coordinates.
    pub fn dim(&self) -> (r: Dimension)
        ensures
            r == self.spec_dim(),
    {
        match self {
            CoordBufferBuilder::Interleaved(b) => b.dim(),
            CoordBufferBuilder::Separated(b) => b.dim(),
        }
    }

    /// The number of coordinates.
    pub fn len(&self) -> (r: usize)
        ensures
            r == self@.len(),
    {
        match self {
            CoordBufferBuilder::Interleaved(b) => b.len(),
            CoordBufferBuilder::Separated(b) => b.len(),
        }
    }

    /// The values of the coordinate at `i`.
    pub fn coord(&self, i: usize) -> (r: Vec<u64>)
        requires
            i < self@.len(),
        ensures
            r@ == self@[i as int],
    {
        match self {
            CoordBufferBuilder::Interleaved(b) => b.coord(i),
            CoordBufferBuilder::Separated(b) => b.coord(i),
        }
    }

    /// Appends the first `dim` values of `coord`.
    pub fn push_coord(&mut self, coord: &Vec<u64>)
        requires
            coord@.len() >= old(self).spec_dim().spec_size(),
        ensures
            final(self)@ == old(self)@.push(coord_prefix(coord@, old(self).spec_dim())),
            final(self).spec_dim() == old(self).spec_dim(),
            final(self).spec_coord_type() == old(self).spec_coord_type(),
    {
        match self {
            CoordBufferBuilder::Interleaved(b) => b.push_coord(coord),
            CoordBufferBuilder::Separated(b) => b.push_coord(coord),
        }
    }

    /// Reserves room for at least `additional` more coordinates.
    pub fn reserve(&mut self, additional: usize)
        ensures
            final(self)@ == old(self)@,
            final(self).spec_dim() == old(self).spec_dim(),
            final(self).spec_coord_type() == old(self).spec_coord_type(),
    {
        match self {
            CoordBufferBuilder::Interleaved(b) => b.reserve(additional),
            CoordBufferBuilder::Separated(b) => b.reserve(additional),
        }
    }

    /// Reserves room for exactly `additional` more coordinates. The room must fit in
    /// `isize::MAX` bytes: where it does not, the call would panic, which `requires` rules out.
    pub fn reserve_exact(&mut self, additional: usize)
        requires
            coord_room(old(self).spec_coord_type(), old(self).spec_dim(), old(self)@.len() as int, additional as int),
        ensures
            final(self)@ == old(self)@,
            final(self).spec_dim() == old(self).spec_dim(),
            final(self).spec_coord_type() == old(self).spec_coord_type(),
    {
        match self {
            CoordBufferBuilder::Interleaved(b) => b.reserve_exact(additional),
            CoordBufferBuilder::Separated(b) => b.reserve_exact(additional),
        }
    }
}

/// A finished buffer of coordinates, in one of the two layouts.
pub struct CoordBuffer {
    inner: CoordBufferBuilder,
}

impl View for CoordBuffer {
    type V = Seq<Seq<u64>>;

    closed spec fn view(&self) -> Seq<Seq<u64>> {
        self.inner@
    }
}

impl CoordBuffer {
    pub closed spec fn spec_dim(self) -> Dimension {
        self.inner.spec_dim()
    }

    pub closed spec fn spec_coord_type(self) -> CoordType {
        self.inner.spec_coord_type()
    }

    /// The layout of the buffer.
    pub fn coord_type(&self) -> (r: CoordType)
        ensures
            r == self.spec_coord_type(),
    {
        self.inner.coord_type()
    }

    /// The dimension of the coordinates.
    pub fn dim(&self) -> (r: Dimension)
        ensures
            r == self.spec_dim(),
    {
        self.inner.dim()
    }

    /// The number of coordinates.
    pub fn len(&self) -> (r: usize)
        ensures
            r == self@.len(),
    {
        self.inner.len()
    }

    /// The values of the coordinate at `i`.
    pub fn coord(&self, i: usize) -> (r: Vec<u64>)
        requires
            i < self@.len(),
        ensures
            r@ == self@[i as int],
    {
        self.inner.coord(i)
    }
}

impl CoordBufferBuilder {
    /// Freezes the buffer.
    pub fn finish(self) -> (r: CoordBuffer)
        ensures
            r@ == self@,
            r.spec_dim() == self.spec_dim(),
            r.spec_coord_type() == self.spec_coord_type(),
    {
        CoordBuffer { inner: self }
    }
}

} // verus!
