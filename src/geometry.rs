use vstd::prelude::*;

verus! {

/// A coordinate as written in the source text: the bytes of one decimal literal.
pub type Coord = Vec<u8>;

/// The literal that stands for a zero coordinate.
pub open spec fn zero_coord() -> Seq<u8> {
    seq![48u8]
}

/// The zero vector of three components.
pub open spec fn zero3() -> Seq<Seq<u8>> {
    seq![zero_coord(), zero_coord(), zero_coord()]
}

/// The zero vector of two components.
pub open spec fn zero2() -> Seq<Seq<u8>> {
    seq![zero_coord(), zero_coord()]
}

/// Copies a byte string.
pub fn copy_bytes(s: &[u8]) -> (r: Vec<u8>)
    ensures
        r@ == s@,
{
    let mut r: Vec<u8> = Vec::new();
    let mut i: usize = 0;
    while i < s.len()
        invariant
            i <= s.len(),
            r@ == s@.take(i as int),
        decreases s.len() - i,
    {
        r.push(s[i]);
        i += 1;
        assert(r@ =~= s@.take(i as int));
    }
    assert(s@.take(s.len() as int) =~= s@);
    r
}

/// The literal `0`.
pub fn zero_literal() -> (r: Coord)
    ensures
        r@ == zero_coord(),
{
    let mut r: Vec<u8> = Vec::new();
    r.push(48u8);
    assert(r@ =~= zero_coord());
    r
}

/// A three-component vector: a position or a normal.
pub struct Vec3 {
    pub x: Coord,
    pub y: Coord,
    pub z: Coord,
}

impl View for Vec3 {
    type V = Seq<Seq<u8>>;

    open spec fn view(&self) -> Seq<Seq<u8>> {
        seq![self.x@, self.y@, self.z@]
    }
}

impl Vec3 {
    pub fn new(x: Coord, y: Coord, z: Coord) -> (r: Vec3)
        ensures
            r@ == seq![x@, y@, z@],
    {
        Vec3 { x, y, z }
    }

    /// The vector (0, 0, 0).
    pub fn zero() -> (r: Vec3)
        ensures
            r@ == zero3(),
    {
        Vec3 { x: zero_literal(), y: zero_literal(), z: zero_literal() }
    }

    pub fn copy(&self) -> (r: Vec3)
        ensures
            r@ == self@,
    {
        Vec3 {
            x: copy_bytes(self.x.as_slice()),
            y: copy_bytes(self.y.as_slice()),
            z: copy_bytes(self.z.as_slice()),
        }
    }
}

/// A two-component vector: a texture coordinate.
pub struct Vec2 {
    pub u: Coord,
    pub v: Coord,
}

impl View for Vec2 {
    type V = Seq<Seq<u8>>;

    open spec fn view(&self) -> Seq<Seq<u8>> {
        seq![self.u@, self.v@]
    }
}

impl Vec2 {
    pub fn new(u: Coord, v: Coord) -> (r: Vec2)
        ensures
            r@ == seq![u@, v@],
    {
        Vec2 { u, v }
    }

    /// The vector (0, 0).
    pub fn zero() -> (r: Vec2)
        ensures
            r@ == zero2(),
    {
        Vec2 { u: zero_literal(), v: zero_literal() }
    }

    pub fn copy(&self) -> (r: Vec2)
        ensures
            r@ == self@,
    {
        Vec2 { u: copy_bytes(self.u.as_slice()), v: copy_bytes(self.v.as_slice()) }
    }
}

} // verus!
