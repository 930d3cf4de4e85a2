use vstd::prelude::*;
use crate::geometry::{Vec2, Vec3, zero2, zero3};

verus! {

/// The indices of one face vertex, 1-based; 0 stands for an absent uv or normal.
#[derive(Clone, Copy, Debug, PartialEq, Eq, Structural)]
pub struct IndexTriple {
    pub position: usize,
    pub uv: usize,
    pub normal: usize,
}

/// A face of the mesh: triangles only.
#[derive(Clone, Copy, Debug)]
pub enum Face {
    Tri([IndexTriple; 3]),
}

impl View for Face {
    type V = Seq<IndexTriple>;

    open spec fn view(&self) -> Seq<IndexTriple> {
        match self {
            Face::Tri(c) => c@,
        }
    }
}

impl Face {
    pub open spec fn corner(self, j: int) -> IndexTriple {
        match self {
            Face::Tri(c) => c@[j],
        }
    }

    pub fn get_corner(&self, j: usize) -> (r: IndexTriple)
        requires
            j < 3,
        ensures
            r == self.corner(j as int),
    {
        match self {
            Face::Tri(c) => c[j],
        }
    }
}

/// The attribute whose index could not be resolved.
#[derive(Clone, Copy, Debug, PartialEq, Eq, Structural)]
pub enum Attribute {
    Position,
    Normal,
    Uv,
}

/// A face vertex that refers past the end of a pool, or a position index of 0.
#[derive(Clone, Copy, Debug, PartialEq, Eq, Structural)]
pub struct ResolveError {
    /// The face, counted from 0.
    pub face: usize,
    pub attribute: Attribute,
    /// The index as the face wrote it.
    pub index: usize,
}

/// One resolved face vertex: position, normal and texture coordinate.
pub struct FlatVertex {
    pub position: Vec3,
    pub normal: Vec3,
    pub uv: Vec2,
}

/// What a flat vertex holds: the literals of its position, normal and uv.
pub type VertexModel = (Seq<Seq<u8>>, Seq<Seq<u8>>, Seq<Seq<u8>>);

impl View for FlatVertex {
    type V = VertexModel;

    open spec fn view(&self) -> VertexModel {
        (self.position@, self.normal@, self.uv@)
    }
}

pub open spec fn flat_views(v: Seq<FlatVertex>) -> Seq<VertexModel> {
    v.map_values(|f: FlatVertex| f@)
}

/// A parsed OBJ document: three attribute pools and the faces that index them.
pub struct OBJ {
    pub vertices: Vec<Vec3>,
    pub normals: Vec<Vec3>,
    pub uvs: Vec<Vec2>,
    pub faces: Vec<Face>,
}

impl OBJ {
    /// The number of face vertices, three per face.
    pub open spec fn corner_count(&self) -> int {
        3 * (self.faces@.len() as int)
    }

    /// The index triple of face vertex `k`, counting three per face in face order.
    pub open spec fn corner(&self, k: int) -> IndexTriple {
        self.faces@[k / 3].corner(k % 3)
    }

    /// Whether a triple's indices all fall within the pools (position mandatory).
    pub open spec fn triple_in_range(&self, t: IndexTriple) -> bool {
        &&& 1 <= t.position <= self.vertices@.len()
        &&& t.normal <= self.normals@.len()
        &&& t.uv <= self.uvs@.len()
    }

    /// Every face vertex of the document resolves.
    pub open spec fn well_formed(&self) -> bool {
        forall|k: int| 0 <= k < self.corner_count() ==> self.triple_in_range(#[trigger] self.corner(k))
    }

    /// The value that triple `t` of face `face` resolves to.
    pub open spec fn resolve_spec(&self, t: IndexTriple, face: int) -> Result<VertexModel, ResolveError> {
        if !(1 <= t.position <= self.vertices@.len()) {
            Err(ResolveError { face: face as usize, attribute: Attribute::Position, index: t.position })
        } else if t.normal > self.normals@.len() {
            Err(ResolveError { face: face as usize, attribute: Attribute::Normal, index: t.normal })
        } else if t.uv > self.uvs@.len() {
            Err(ResolveError { face: face as usize, attribute: Attribute::Uv, index: t.uv })
        } else {
            Ok((
                self.vertices@[t.position - 1]@,
                if t.normal == 0 { zero3() } else { self.normals@[t.normal - 1]@ },
                if t.uv == 0 { zero2() } else { self.uvs@[t.uv - 1]@ },
            ))
        }
    }

    /// What face vertex `k` resolves to.
    pub open spec fn resolve_corner(&self, k: int) -> Result<VertexModel, ResolveError> {
        self.resolve_spec(self.corner(k), k / 3)
    }

    /// The first `n` face vertices resolved, or the first error among them.
    pub open spec fn resolved_prefix(&self, n: int) -> Result<Seq<VertexModel>, ResolveError>
        decreases n,
    {
        if n <= 0 {
            Ok(Seq::empty())
        } else {
            match self.resolved_prefix(n - 1) {
                Err(e) => Err(e),
                Ok(s) => match self.resolve_corner(n - 1) {
                    Err(e) => Err(e),
                    Ok(v) => Ok(s.push(v)),
                },
            }
        }
    }

    /// The whole flattened vertex stream, or the first resolution error in face order.
    pub open spec fn resolved(&self) -> Result<Seq<VertexModel>, ResolveError> {
        self.resolved_prefix(self.corner_count())
    }

    /// Resolves one index triple of face `face` against the pools.
    pub fn resolve_triple(&self, t: IndexTriple, face: usize) -> (r: Result<FlatVertex, ResolveError>)
        ensures
            match r {
                Ok(v) => self.resolve_spec(t, face as int) == Ok::<VertexModel, ResolveError>(v@),
                Err(e) => self.resolve_spec(t, face as int) == Err::<VertexModel, ResolveError>(e),
            },
    {
        if t.position == 0 || t.position > self.vertices.len() {
            return Err(ResolveError { face, attribute: Attribute::Position, index: t.position });
        }
        if t.normal > self.normals.len() {
            return Err(ResolveError { face, attribute: Attribute::Normal, index: t.normal });
        }
        if t.uv > self.uvs.len() {
            return Err(ResolveError { face, attribute: Attribute::Uv, index: t.uv });
        }
        let position = self.vertices[t.position - 1].copy();
        let normal = if t.normal == 0 {
            Vec3::zero()
        } else {
            self.normals[t.normal - 1].copy()
        };
        let uv = if t.uv == 0 {
            Vec2::zero()
        } else {
            self.uvs[t.uv - 1].copy()
        };
        Ok(FlatVertex { position, normal, uv })
    }

    /// Resolves every face vertex in face order: three consecutive vertices per face.
    pub fn resolve_all(&self) -> (r: Result<Vec<FlatVertex>, ResolveError>)
        ensures
            match r {
                Ok(v) => self.resolved() == Ok::<Seq<VertexModel>, ResolveError>(flat_views(v@)),
                Err(e) => self.resolved() == Err::<Seq<VertexModel>, ResolveError>(e),
            },
    {
        let mut out: Vec<FlatVertex> = Vec::new();
        let mut f: usize = 0;
        assert(flat_views(out@) =~= Seq::<VertexModel>::empty());
        while f < self.faces.len()
            invariant
                f <= self.faces@.len(),
                self.resolved_prefix(3 * f) == Ok::<Seq<VertexModel>, ResolveError>(flat_views(out@)),
            decreases self.faces@.len() - f,
        {
            let face = self.faces[f];
            let mut j: usize = 0;
            while j < 3
                invariant
                    f < self.faces@.len(),
                    j <= 3,
                    face == self.faces@[f as int],
                    self.resolved_prefix(3 * f + j) == Ok::<Seq<VertexModel>, ResolveError>(flat_views(out@)),
                decreases 3 - j,
            {
                let k: Ghost<int> = Ghost(3 * f + j);
                assert(k@ / 3 == f && k@ % 3 == j);
                let t = face.get_corner(j);
                match self.resolve_triple(t, f) {
                    Err(e) => {
                        assert(self.resolved_prefix(k@ + 1) == Err::<Seq<VertexModel>, ResolveError>(e));
                        proof { self.lemma_prefix_err_sticks(k@ + 1, self.corner_count()); }
                        return Err(e);
                    },
                    Ok(v) => {
                        let ghost before = out@;
                        out.push(v);
                        assert(flat_views(out@) =~= flat_views(before).push(v@));
                    },
                }
                j += 1;
            }
            f += 1;
        }
        Ok(out)
    }

    /// Once a prefix of the traversal fails, every longer prefix fails the same way.
    pub proof fn lemma_prefix_err_sticks(&self, n: int, m: int)
        requires
            0 <= n <= m,
            self.resolved_prefix(n) is Err,
        ensures
            self.resolved_prefix(m) == self.resolved_prefix(n),
        decreases m - n,
    {
        if n < m {
            self.lemma_prefix_err_sticks(n, m - 1);
        }
    }
}


/// A traversal of a document's face vertices; each traversal keeps its own cursor.
pub struct OBJIter<'a> {
    obj: &'a OBJ,
    face: usize,
    corner: usize,
}

impl<'a> OBJIter<'a> {
    /// The document traversed.
    pub closed spec fn doc(&self) -> &'a OBJ {
        self.obj
    }

    /// How many face vertices have been handed out.
    pub closed spec fn pos(&self) -> int {
        3 * self.face + self.corner
    }

    pub closed spec fn wf(&self) -> bool {
        &&& self.corner < 3
        &&& self.face <= self.obj.faces@.len()
        &&& self.face == self.obj.faces@.len() ==> self.corner == 0
    }

    /// Hands out the next face vertex, resolved, or `None` once every face is done.
    pub fn next(&mut self) -> (r: Option<Result<FlatVertex, ResolveError>>)
        requires
            old(self).wf(),
        ensures
            final(self).wf(),
            final(self).doc() == old(self).doc(),
            old(self).pos() < old(self).doc().corner_count() ==> {
                &&& final(self).pos() == old(self).pos() + 1
                &&& r matches Some(x) && match x {
                    Ok(v) => old(self).doc().resolve_corner(old(self).pos()) == Ok::<VertexModel, ResolveError>(v@),
                    Err(e) => old(self).doc().resolve_corner(old(self).pos()) == Err::<VertexModel, ResolveError>(e),
                }
            },
            old(self).pos() >= old(self).doc().corner_count() ==> {
                &&& r is None
                &&& final(self).pos() == old(self).pos()
            },
    {
        if self.face >= self.obj.faces.len() {
            return None;
        }
        let k: Ghost<int> = Ghost(self.pos());
        assert(k@ / 3 == self.face && k@ % 3 == self.corner);
        let t = self.obj.faces[self.face].get_corner(self.corner);
        let r = self.obj.resolve_triple(t, self.face);
        if self.corner == 2 {
            self.corner = 0;
            self.face = self.face + 1;
        } else {
            self.corner = self.corner + 1;
        }
        Some(r)
    }
}

impl OBJ {
    /// Starts a traversal at the first vertex of the first face.
    pub fn iter(&self) -> (r: OBJIter<'_>)
        ensures
            r.wf(),
            r.doc() == self,
            r.pos() == 0,
    {
        OBJIter { obj: self, face: 0, corner: 0 }
    }

    /// Where the first `n` face vertices have their indices in range, the first `n`
    /// resolve, element by element.
    pub proof fn lemma_prefix_resolves(&self, n: int)
        requires
            0 <= n <= self.corner_count(),
            forall|k: int| 0 <= k < n ==> self.triple_in_range(#[trigger] self.corner(k)),
        ensures
            self.resolved_prefix(n) is Ok,
            self.resolved_prefix(n)->Ok_0.len() == n,
            forall|k: int| 0 <= k < n ==> self.resolve_corner(k) == Ok::<VertexModel, ResolveError>(
                #[trigger] self.resolved_prefix(n)->Ok_0[k]),
        decreases n,
    {
        if n > 0 {
            self.lemma_prefix_resolves(n - 1);
            assert(self.triple_in_range(self.corner(n - 1)));
        }
    }

    /// A well-formed document resolves to exactly three flattened vertices per face,
    /// the `k`-th being what face vertex `k` resolves to.
    pub proof fn lemma_resolved_length(&self)
        requires
            self.well_formed(),
        ensures
            self.resolved() is Ok,
            self.resolved()->Ok_0.len() == 3 * self.faces@.len(),
            forall|k: int| 0 <= k < self.corner_count() ==> self.resolve_corner(k) == Ok::<VertexModel, ResolveError>(
                #[trigger] self.resolved()->Ok_0[k]),
    {
        self.lemma_prefix_resolves(self.corner_count());
    }

    /// Traversals do not interfere: whatever other traversals of the same document ran
    /// before, the item that any traversal yields at step `k` is element `k` of the
    /// document's resolution, so two traversals yield identical sequences.
    pub proof fn lemma_traversals_agree(a: OBJIter, b: OBJIter, k: int)
        requires
            a.doc() == b.doc(),
            a.doc().well_formed(),
            a.pos() == k,
            b.pos() == k,
            0 <= k < a.doc().corner_count(),
        ensures
            a.doc().resolve_corner(a.pos()) == b.doc().resolve_corner(b.pos()),
            a.doc().resolve_corner(a.pos()) == Ok::<VertexModel, ResolveError>(a.doc().resolved()->Ok_0[k]),
    {
        a.doc().lemma_resolved_length();
    }

    /// A triple with no normal index resolves its normal to (0, 0, 0), whatever the
    /// normal pool holds.
    pub proof fn lemma_omitted_normal(&self, t: IndexTriple, face: int)
        requires
            t.normal == 0,
            1 <= t.position <= self.vertices@.len(),
            t.uv <= self.uvs@.len(),
        ensures
            self.resolve_spec(t, face) is Ok,
            self.resolve_spec(t, face)->Ok_0.1 == zero3(),
    {
    }

    /// A position index equal to the pool's length resolves to the last position;
    /// one past it, or 0, is a resolution error on the position.
    pub proof fn lemma_position_boundary(&self, t: IndexTriple, face: int)
        requires
            t.normal <= self.normals@.len(),
            t.uv <= self.uvs@.len(),
        ensures
            t.position == self.vertices@.len() && t.position > 0 ==> {
                &&& self.resolve_spec(t, face) is Ok
                &&& self.resolve_spec(t, face)->Ok_0.0 == self.vertices@.last()@
            },
            t.position == self.vertices@.len() + 1 || t.position == 0 ==> {
                &&& self.resolve_spec(t, face) is Err
                &&& self.resolve_spec(t, face)->Err_0.attribute == Attribute::Position
                &&& self.resolve_spec(t, face)->Err_0.index == t.position
            },
    {
    }
}

/// What a document holds: the literals of its three pools and its faces.
pub struct DocModel {
    pub positions: Seq<Seq<Seq<u8>>>,
    pub normals: Seq<Seq<Seq<u8>>>,
    pub uvs: Seq<Seq<Seq<u8>>>,
    pub faces: Seq<Seq<IndexTriple>>,
}

impl View for OBJ {
    type V = DocModel;

    open spec fn view(&self) -> DocModel {
        DocModel {
            positions: self.vertices@.map_values(|v: Vec3| v@),
            normals: self.normals@.map_values(|v: Vec3| v@),
            uvs: self.uvs@.map_values(|v: Vec2| v@),
            faces: self.faces@.map_values(|f: Face| f@),
        }
    }
}

pub open spec fn empty_doc() -> DocModel {
    DocModel { positions: Seq::empty(), normals: Seq::empty(), uvs: Seq::empty(), faces: Seq::empty() }
}

impl OBJ {
    /// An empty document.
    pub fn new() -> (r: OBJ)
        ensures
            r@ == empty_doc(),
    {
        let r = OBJ { vertices: Vec::new(), normals: Vec::new(), uvs: Vec::new(), faces: Vec::new() };
        assert(r@.positions =~= Seq::<Seq<Seq<u8>>>::empty());
        assert(r@.normals =~= Seq::<Seq<Seq<u8>>>::empty());
        assert(r@.uvs =~= Seq::<Seq<Seq<u8>>>::empty());
        assert(r@.faces =~= Seq::<Seq<IndexTriple>>::empty());
        r
    }
}

/// Three parallel arrays, one entry per flattened vertex, in traversal order: what
/// the rendering layer uploads, one attribute slot each.
pub struct AttributeStreams {
    pub positions: Vec<Vec3>,
    pub normals: Vec<Vec3>,
    pub uvs: Vec<Vec2>,
}

impl AttributeStreams {
    /// The arrays have one entry each per vertex of `s`, entry `i` being vertex `i`.
    pub open spec fn holds(&self, s: Seq<VertexModel>) -> bool {
        &&& self.positions@.len() == s.len()
        &&& self.normals@.len() == s.len()
        &&& self.uvs@.len() == s.len()
        &&& forall|i: int| 0 <= i < s.len() ==> (#[trigger] self.positions@[i]@, self.normals@[i]@, self.uvs@[i]@) == s[i]
    }

    /// The number of vertices to draw.
    pub fn vertex_count(&self) -> (r: usize)
        ensures
            r == self.positions@.len(),
    {
        self.positions.len()
    }

    /// Splits flattened vertices into parallel position, normal and uv arrays.
    pub fn from_vertices(vs: &Vec<FlatVertex>) -> (r: AttributeStreams)
        ensures
            r.holds(flat_views(vs@)),
    {
        let mut r = AttributeStreams { positions: Vec::new(), normals: Vec::new(), uvs: Vec::new() };
        let mut i: usize = 0;
        while i < vs.len()
            invariant
                i <= vs@.len(),
                r.holds(flat_views(vs@).take(i as int)),
            decreases vs@.len() - i,
        {
            let v = &vs[i];
            r.positions.push(v.position.copy());
            r.normals.push(v.normal.copy());
            r.uvs.push(v.uv.copy());
            i += 1;
            assert(r.holds(flat_views(vs@).take(i as int))) by {
                assert forall|k: int| 0 <= k < i implies (#[trigger] r.positions@[k]@, r.normals@[k]@, r.uvs@[k]@)
                    == flat_views(vs@).take(i as int)[k] by {
                    if k < i - 1 {
                        assert(flat_views(vs@).take(i as int)[k] == flat_views(vs@).take(i - 1)[k]);
                    }
                }
            }
        }
        assert(flat_views(vs@).take(vs@.len() as int) =~= flat_views(vs@));
        r
    }
}

impl OBJ {
    /// Resolves the document into the three attribute arrays that the rendering
    /// layer uploads, or the first resolution error in face order.
    pub fn attribute_streams(&self) -> (r: Result<AttributeStreams, ResolveError>)
        ensures
            match r {
                Ok(s) => self.resolved() is Ok && s.holds(self.resolved()->Ok_0),
                Err(e) => self.resolved() == Err::<Seq<VertexModel>, ResolveError>(e),
            },
    {
        let vs = self.resolve_all()?;
        Ok(AttributeStreams::from_vertices(&vs))
    }
}

impl OBJ {
    /// Checks once, before any traversal, that every face vertex refers to existing
    /// attributes; the error is the one that resolution would meet first.
    pub fn validate(&self) -> (r: Result<(), ResolveError>)
        ensures
            r is Ok <==> self.well_formed(),
            r is Ok ==> self.resolved() is Ok,
            r matches Err(e) ==> self.resolved() == Err::<Seq<VertexModel>, ResolveError>(e),
    {
        let mut f: usize = 0;
        while f < self.faces.len()
            invariant
                f <= self.faces@.len(),
                forall|k: int| 0 <= k < 3 * f ==> self.triple_in_range(#[trigger] self.corner(k)),
            decreases self.faces@.len() - f,
        {
            let face = self.faces[f];
            let mut j: usize = 0;
            while j < 3
                invariant
                    f < self.faces@.len(),
                    j <= 3,
                    face == self.faces@[f as int],
                    forall|k: int| 0 <= k < 3 * f + j ==> self.triple_in_range(#[trigger] self.corner(k)),
                decreases 3 - j,
            {
                let k: Ghost<int> = Ghost(3 * f + j);
                assert(k@ / 3 == f && k@ % 3 == j);
                let t = face.get_corner(j);
                if let Err(e) = self.resolve_triple(t, f) {
                    proof {
                        self.lemma_prefix_resolves(k@);
                        assert(self.resolved_prefix(k@ + 1) is Err);
                        self.lemma_prefix_err_sticks(k@ + 1, self.corner_count());
                    }
                    return Err(e);
                }
                j += 1;
            }
            f += 1;
        }
        proof {
            self.lemma_prefix_resolves(self.corner_count());
        }
        Ok(())
    }
}

} // verus!
