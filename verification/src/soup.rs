//! The triangle-soup format: a vertex list and faces that index it.

use vstd::prelude::*;
use vstd::string::StringExecFns;
use crate::error::ParseError;
use crate::mesh::{mesh_outcome, Mesh, MeshView, Point32, Positions, PositionsView};
use crate::packaging::{corners, triangle_ok, Triangle};

verus! {

/// A decoded triangle soup: its vertices in the order they were met, and one
/// face per triangle.
#[derive(Clone, Debug, PartialEq, Eq)]
pub struct IndexedSoup {
    pub vertices: Vec<Point32>,
    pub faces: Vec<Triangle>,
}

impl IndexedSoup {
    /// Whether every corner of every face names a vertex of the soup and fits
    /// an index of the unified mesh.
    pub open spec fn sound(&self) -> bool {
        forall|k: int|
            0 <= k < self.faces@.len() ==> triangle_ok(
                #[trigger] self.faces@[k],
                self.vertices@.len(),
            )
    }

    /// The mesh of the soup: its vertices as they are, and three indices per
    /// face.
    pub open spec fn mesh(&self) -> MeshView {
        MeshView { positions: PositionsView::Single(self.vertices@), indices: corners(self.faces@) }
    }
}

/// Whether `r` is what a decoded soup gives: its mesh where the soup is
/// sound, else a `MeshConvertError`.
pub open spec fn is_soup_mesh(soup: IndexedSoup, r: Result<MeshView, ParseError>) -> bool {
    &&& r is Ok <==> soup.sound()
    &&& r matches Ok(m) ==> m == soup.mesh() && m.wf()
    &&& r matches Err(e) ==> e is MeshConvertError
}

/// Turns a decoded triangle soup into a mesh. An empty soup gives an empty
/// mesh. A soup with a face that names a vertex it does not have gives no
/// mesh.
pub fn parse_stl_inner(soup: &IndexedSoup) -> (r: Result<Mesh, ParseError>)
    ensures
        is_soup_mesh(*soup, mesh_outcome(r)),
{
    let count = soup.vertices.len();
    let mut positions: Vec<Point32> = Vec::new();
    let mut i: usize = 0;
    while i < count
        invariant
            i <= count == soup.vertices@.len(),
            positions@ == soup.vertices@.take(i as int),
        decreases count - i,
    {
        positions.push(soup.vertices[i]);
        i += 1;
        assert(soup.vertices@.take(i as int) =~= soup.vertices@.take(i - 1).push(
            soup.vertices@[i - 1],
        ));
    }
    assert(soup.vertices@.take(i as int) =~= soup.vertices@);
    let mut indices: Vec<u32> = Vec::new();
    let mut k: usize = 0;
    while k < soup.faces.len()
        invariant
            k <= soup.faces@.len(),
            count == soup.vertices@.len(),
            indices@.len() == 3 * k,
            forall|j: int| 0 <= j < k ==> triangle_ok(#[trigger] soup.faces@[j], count as nat),
            forall|j: int| 0 <= j < indices@.len() ==> indices@[j] == corners(soup.faces@)[j],
            forall|j: int| 0 <= j < indices@.len() ==> (#[trigger] indices@[j]) < count,
        decreases soup.faces.len() - k,
    {
        let t = soup.faces[k];
        let ok = t.v1 < count && t.v1 <= u32::MAX as usize && t.v2 < count && t.v2
            <= u32::MAX as usize && t.v3 < count && t.v3 <= u32::MAX as usize;
        if !ok {
            return Err(
                ParseError::MeshConvertError(
                    String::from_str("A face refers to a vertex that the model lacks"),
                ),
            );
        }
        indices.push(t.v1 as u32);
        indices.push(t.v2 as u32);
        indices.push(t.v3 as u32);
        k += 1;
    }
    assert(indices@ =~= corners(soup.faces@));
    Ok(Mesh { positions: Positions::Single(positions), indices })
}

} // verus!
