//! The unified mesh representation that every reader produces.

use vstd::prelude::*;
use crate::error::ParseError;

verus! {

/// A position whose coordinates are single-precision bit patterns.
#[derive(Clone, Copy, Debug, PartialEq, Eq, Structural)]
pub struct Point32 {
    pub x: u32,
    pub y: u32,
    pub z: u32,
}

/// A position whose coordinates are double-precision bit patterns.
#[derive(Clone, Copy, Debug, PartialEq, Eq, Structural)]
pub struct Point64 {
    pub x: u64,
    pub y: u64,
    pub z: u64,
}

/// An opaque colour.
#[derive(Clone, Copy, Debug, PartialEq, Eq, Structural)]
pub struct Rgb {
    pub r: u8,
    pub g: u8,
    pub b: u8,
}

/// The vertex positions of a mesh, in the precision of their source.
#[derive(Clone, Debug, PartialEq, Eq)]
pub enum Positions {
    Single(Vec<Point32>),
    Double(Vec<Point64>),
}

/// What a `Positions` value holds.
#[verifier::ext_equal]
pub enum PositionsView {
    Single(Seq<Point32>),
    Double(Seq<Point64>),
}

impl PositionsView {
    /// The number of vertices.
    pub open spec fn len(self) -> nat {
        match self {
            PositionsView::Single(s) => s.len(),
            PositionsView::Double(s) => s.len(),
        }
    }
}

impl View for Positions {
    type V = PositionsView;

    open spec fn view(&self) -> PositionsView {
        match self {
            Positions::Single(v) => PositionsView::Single(v@),
            Positions::Double(v) => PositionsView::Double(v@),
        }
    }
}

impl Positions {
    /// The number of vertices.
    pub fn len(&self) -> (n: usize)
        ensures
            n == self@.len(),
    {
        match self {
            Positions::Single(v) => v.len(),
            Positions::Double(v) => v.len(),
        }
    }
}

/// An indexed triangle mesh: every three consecutive indices name the corners
/// of one triangle.
#[derive(Clone, Debug, PartialEq, Eq)]
pub struct Mesh {
    pub positions: Positions,
    pub indices: Vec<u32>,
}

/// What a `Mesh` holds.
#[verifier::ext_equal]
pub struct MeshView {
    pub positions: PositionsView,
    pub indices: Seq<u32>,
}

impl MeshView {
    /// The mesh invariant: whole triangles only, and every index names a vertex.
    pub open spec fn wf(self) -> bool {
        &&& self.indices.len() % 3 == 0
        &&& forall|k: int| 0 <= k < self.indices.len() ==> (#[trigger] self.indices[k]) < self.positions.len()
    }

    /// The number of triangles.
    pub open spec fn triangle_count(self) -> nat {
        self.indices.len() / 3
    }
}

impl View for Mesh {
    type V = MeshView;

    open spec fn view(&self) -> MeshView {
        MeshView { positions: self.positions@, indices: self.indices@ }
    }
}

impl Mesh {
    /// Whether the mesh keeps the mesh invariant.
    pub open spec fn wf(&self) -> bool {
        self@.wf()
    }

    /// Builds a mesh, or nothing if the index list is not a list of whole
    /// triangles over the given vertices.
    pub fn new(positions: Positions, indices: Vec<u32>) -> (r: Option<Mesh>)
        ensures
            r is Some <==> (MeshView { positions: positions@, indices: indices@ }).wf(),
            r matches Some(m) ==> m@ == (MeshView { positions: positions@, indices: indices@ }),
    {
        if indices.len() % 3 != 0 {
            return None;
        }
        let n = positions.len();
        let mut k: usize = 0;
        while k < indices.len()
            invariant
                k <= indices.len(),
                n == positions@.len(),
                forall|j: int| 0 <= j < k ==> (#[trigger] indices@[j]) < n,
            decreases indices.len() - k,
        {
            if indices[k] as usize >= n {
                return None;
            }
            k += 1;
        }
        Some(Mesh { positions, indices })
    }

    /// Checks the mesh invariant.
    pub fn is_wf(&self) -> (r: bool)
        ensures
            r == self.wf(),
    {
        if self.indices.len() % 3 != 0 {
            return false;
        }
        let n = self.positions.len();
        let mut k: usize = 0;
        while k < self.indices.len()
            invariant
                k <= self.indices@.len(),
                n == self.positions@.len(),
                forall|j: int| 0 <= j < k ==> (#[trigger] self.indices@[j]) < n,
            decreases self.indices.len() - k,
        {
            if self.indices[k] as usize >= n {
                return false;
            }
            k += 1;
        }
        true
    }

    /// The number of triangles.
    pub fn triangle_count(&self) -> (n: usize)
        ensures
            n == self@.triangle_count(),
    {
        self.indices.len() / 3
    }
}

/// Where a part stands in the scene: applied as `placement * local_point`.
#[derive(Clone, Copy, Debug, PartialEq, Eq)]
pub enum Placement {
    /// The part stays where its own coordinates put it.
    Identity,
    /// Twelve double-precision bit patterns `[a, b, c, d]` by three rows in
    /// source order: the first nine fill the three columns of the
    /// rotation and scale block, the last three are the translation.
    Affine([u64; 12]),
}

/// What a `Placement` holds.
#[verifier::ext_equal]
pub enum PlacementView {
    Identity,
    Affine(Seq<u64>),
}

impl View for Placement {
    type V = PlacementView;

    open spec fn view(&self) -> PlacementView {
        match self {
            Placement::Identity => PlacementView::Identity,
            Placement::Affine(t) => PlacementView::Affine(t@),
        }
    }
}

/// One part of a parsed file: a mesh, its placement and its colour, if the
/// file gave it one.
#[derive(Clone, Debug, PartialEq, Eq)]
pub struct MeshWithTransform {
    pub mesh: Mesh,
    pub transform: Placement,
    pub color: Option<Rgb>,
}

/// What a part holds.
#[verifier::ext_equal]
pub struct PartView {
    pub mesh: MeshView,
    pub transform: PlacementView,
    pub color: Option<Rgb>,
}

impl PartView {
    /// A part made of a mesh alone: not moved, not coloured.
    pub open spec fn plain(mesh: MeshView) -> PartView {
        PartView { mesh, transform: PlacementView::Identity, color: None }
    }
}

impl View for MeshWithTransform {
    type V = PartView;

    open spec fn view(&self) -> PartView {
        PartView { mesh: self.mesh@, transform: self.transform@, color: self.color }
    }
}

/// The parts of one parsed file, in the order of their source.
#[derive(Clone, Debug, PartialEq, Eq)]
pub struct ParseResult {
    pub meshes: Vec<MeshWithTransform>,
}

/// What the outcome of a reader holds: the view of its mesh, or its error.
pub open spec fn mesh_outcome(r: Result<Mesh, ParseError>) -> Result<MeshView, ParseError> {
    match r {
        Ok(m) => Ok(m@),
        Err(e) => Err(e),
    }
}

/// What a list of meshes holds.
pub open spec fn mesh_views(meshes: Seq<Mesh>) -> Seq<MeshView> {
    Seq::new(meshes.len(), |i: int| meshes[i]@)
}

/// What a list of parts holds.
pub open spec fn part_views(parts: Seq<MeshWithTransform>) -> Seq<PartView> {
    Seq::new(parts.len(), |i: int| parts[i]@)
}

/// Whether every part of the list keeps the mesh invariant.
pub open spec fn parts_wf(parts: Seq<PartView>) -> bool {
    forall|i: int| 0 <= i < parts.len() ==> (#[trigger] parts[i]).mesh.wf()
}

impl View for ParseResult {
    type V = Seq<PartView>;

    open spec fn view(&self) -> Seq<PartView> {
        part_views(self.meshes@)
    }
}

impl ParseResult {
    /// Whether every part keeps the mesh invariant.
    pub open spec fn wf(&self) -> bool {
        parts_wf(self@)
    }

    /// The result of a file that holds one mesh: a single part, not moved and
    /// not coloured.
    pub fn single(mesh: Mesh) -> (r: ParseResult)
        ensures
            r@ == seq![PartView::plain(mesh@)],
    {
        let mut meshes: Vec<MeshWithTransform> = Vec::new();
        meshes.push(MeshWithTransform { mesh, transform: Placement::Identity, color: None });
        let r = ParseResult { meshes };
        assert(r@ =~= seq![PartView::plain(mesh@)]);
        r
    }

    /// The result of a file that holds the given parts.
    pub fn multiple(meshes: Vec<MeshWithTransform>) -> (r: ParseResult)
        ensures
            r.meshes == meshes,
    {
        ParseResult { meshes }
    }
}

} // verus!
