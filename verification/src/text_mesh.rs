//! The grouped-geometry text format: groups of primitives over a vertex
//! table. Each group becomes a mesh of the vertices it refers to; the group
//! with the most triangles is the mesh of the file.

use std::collections::HashMap;
use vstd::prelude::*;
use vstd::string::StringExecFns;
use crate::error::ParseError;
use crate::mesh::{mesh_outcome, Mesh, MeshView, Point64, Positions, PositionsView};

verus! {

/// A primitive of a group, by the indices of its corners in the vertex table
/// of the group.
#[derive(Clone, Copy, Debug, PartialEq, Eq, Structural)]
pub enum Primitive {
    Point(usize),
    Line(usize, usize),
    Triangle(usize, usize, usize),
}

/// One group of the file: its vertex table and its primitives, in lists by
/// material.
#[derive(Clone, Debug, PartialEq, Eq)]
pub struct TextGroup {
    pub vertices: Vec<Point64>,
    pub geometry: Vec<Vec<Primitive>>,
}

/// A reference to a vertex: its index in the vertex table.
pub type Corner = usize;

/// The references that a primitive makes: the three corners of a triangle; a
/// point and a line make none.
pub open spec fn shape_corners(shape: Primitive) -> Seq<Corner> {
    match shape {
        Primitive::Triangle(a, b, c) => seq![a, b, c],
        _ => Seq::empty(),
    }
}

/// The references that a list of primitives makes, in order.
pub open spec fn list_corners(shapes: Seq<Primitive>) -> Seq<Corner>
    decreases shapes.len(),
{
    if shapes.len() == 0 {
        Seq::empty()
    } else {
        list_corners(shapes.drop_last()) + shape_corners(shapes.last())
    }
}

/// The references that the lists of a group make, list after list.
pub open spec fn group_corners(geometry: Seq<Vec<Primitive>>) -> Seq<Corner>
    decreases geometry.len(),
{
    if geometry.len() == 0 {
        Seq::empty()
    } else {
        group_corners(geometry.drop_last()) + list_corners(geometry.last()@)
    }
}

/// The references without repetition, each where it comes first.
pub open spec fn distinct(corners: Seq<Corner>) -> Seq<Corner>
    decreases corners.len(),
{
    if corners.len() == 0 {
        Seq::empty()
    } else {
        let before = distinct(corners.drop_last());
        if before.contains(corners.last()) {
            before
        } else {
            before.push(corners.last())
        }
    }
}

impl TextGroup {
    /// The references that the triangles of the group make.
    pub open spec fn corners(&self) -> Seq<Corner> {
        group_corners(self.geometry@)
    }

    /// The vertices of the group's mesh by their origin: one for each vertex
    /// of the table that a triangle refers to, in the order of first
    /// reference.
    pub open spec fn origins(&self) -> Seq<Corner> {
        distinct(self.corners())
    }

    /// The size by which groups are compared: the number of corner
    /// references, as far as a machine word counts.
    pub open spec fn measure(&self) -> nat {
        if self.corners().len() <= usize::MAX {
            self.corners().len()
        } else {
            usize::MAX as nat
        }
    }

    /// Whether a mesh can be made of the group: every reference names a
    /// vertex of the table, and the mesh's vertices can be indexed.
    pub open spec fn usable(&self) -> bool {
        &&& forall|k: int|
            0 <= k < self.corners().len() ==> (#[trigger] self.corners()[k])
                < self.vertices@.len()
        &&& self.origins().len() <= u32::MAX + 1
    }

    /// Whether `mesh` is the mesh of the group: its vertices are the referred
    /// vertices of the table in the order of first reference, and each index
    /// leads to the vertex that the reference names.
    pub open spec fn is_mesh(&self, mesh: MeshView) -> bool {
        &&& mesh.positions == PositionsView::Double(
            Seq::new(self.origins().len(), |j: int| self.vertices@[self.origins()[j] as int]),
        )
        &&& mesh.indices.len() == self.corners().len()
        &&& forall|k: int|
            0 <= k < mesh.indices.len() ==> (#[trigger] mesh.indices[k]) < self.origins().len()
                && self.origins()[mesh.indices[k] as int] == self.corners()[k]
    }
}

/// Every reference stands among the distinct references, and these hold
/// nothing twice and nothing else.
pub proof fn lemma_distinct(corners: Seq<Corner>)
    ensures
        distinct(corners).no_duplicates(),
        distinct(corners).len() <= corners.len(),
        forall|c: Corner| distinct(corners).contains(c) <==> corners.contains(c),
    decreases corners.len(),
{
    if corners.len() > 0 {
        let init = corners.drop_last();
        let last = corners.last();
        lemma_distinct(init);
        let before = distinct(init);
        assert forall|c: Corner| distinct(corners).contains(c) <==> corners.contains(c) by {
            if corners.contains(c) {
                let k = choose|k: int| 0 <= k < corners.len() && corners[k] == c;
                if k < corners.len() - 1 {
                    assert(init[k] == c);
                    assert(init.contains(c));
                    assert(before.contains(c));
                    let j = choose|j: int| 0 <= j < before.len() && before[j] == c;
                    assert(distinct(corners)[j] == c);
                } else {
                    if !before.contains(c) {
                        assert(distinct(corners)[before.len() as int] == c);
                    }
                }
            }
            if distinct(corners).contains(c) {
                let j = choose|j: int| 0 <= j < distinct(corners).len() && distinct(corners)[j] == c;
                if j < before.len() {
                    assert(before[j] == c);
                    assert(before.contains(c));
                    assert(init.contains(c));
                    let k = choose|k: int| 0 <= k < init.len() && init[k] == c;
                    assert(corners[k] == c);
                } else {
                    assert(corners[corners.len() - 1] == c);
                }
            }
        }
    }
}

/// The mesh of a group is one mesh only.
pub proof fn lemma_mesh_is_unique(group: TextGroup, a: MeshView, b: MeshView)
    requires
        group.is_mesh(a),
        group.is_mesh(b),
    ensures
        a == b,
{
    lemma_distinct(group.corners());
    assert forall|k: int| 0 <= k < a.indices.len() implies a.indices[k] == b.indices[k] by {
        assert(group.origins()[a.indices[k] as int] == group.origins()[b.indices[k] as int]);
    }
    assert(a.indices =~= b.indices);
}

/// Whether `part` is the beginning of `all`.
pub open spec fn is_prefix(part: Seq<Corner>, all: Seq<Corner>) -> bool {
    part.len() <= all.len() && all.take(part.len() as int) == part
}

/// The references of the first primitives of a list begin the references of
/// the list.
proof fn lemma_list_prefix(shapes: Seq<Primitive>, n: int)
    requires
        0 <= n <= shapes.len(),
    ensures
        is_prefix(list_corners(shapes.take(n)), list_corners(shapes)),
    decreases shapes.len() - n,
{
    let all = list_corners(shapes);
    if n == shapes.len() {
        assert(shapes.take(n) =~= shapes);
        assert(all.take(all.len() as int) =~= all);
    } else {
        lemma_list_prefix(shapes, n + 1);
        let more = list_corners(shapes.take(n + 1));
        let less = list_corners(shapes.take(n));
        assert(shapes.take(n + 1).drop_last() =~= shapes.take(n));
        assert(more == less + shape_corners(shapes.take(n + 1).last()));
        assert(all.take(less.len() as int) =~= more.take(less.len() as int));
        assert(more.take(less.len() as int) =~= less);
    }
}

/// The references of the first lists of a group begin the references of the
/// group.
proof fn lemma_group_prefix(geometry: Seq<Vec<Primitive>>, n: int)
    requires
        0 <= n <= geometry.len(),
    ensures
        is_prefix(group_corners(geometry.take(n)), group_corners(geometry)),
    decreases geometry.len() - n,
{
    let all = group_corners(geometry);
    if n == geometry.len() {
        assert(geometry.take(n) =~= geometry);
        assert(all.take(all.len() as int) =~= all);
    } else {
        lemma_group_prefix(geometry, n + 1);
        let more = group_corners(geometry.take(n + 1));
        let less = group_corners(geometry.take(n));
        assert(geometry.take(n + 1).drop_last() =~= geometry.take(n));
        assert(all.take(less.len() as int) =~= more.take(less.len() as int));
        assert(more.take(less.len() as int) =~= less);
    }
}

/// Taking more references never leaves fewer distinct ones.
proof fn lemma_distinct_grows(all: Seq<Corner>, n: int)
    requires
        0 <= n <= all.len(),
    ensures
        distinct(all.take(n)).len() <= distinct(all).len(),
    decreases all.len() - n,
{
    if n == all.len() {
        assert(all.take(n) =~= all);
    } else {
        lemma_distinct_grows(all, n + 1);
        assert(all.take(n + 1).drop_last() =~= all.take(n));
    }
}

/// No mesh can be made of a group whose references begin with a run that
/// ends in a missing vertex, or that holds more distinct references than
/// there are indices.
proof fn lemma_prefix_blocks(group: TextGroup, part: Seq<Corner>)
    requires
        is_prefix(part, group.corners()),
        part.len() > 0,
        part.last() >= group.vertices@.len() || distinct(part).len() > u32::MAX + 1,
    ensures
        !group.usable(),
{
    let all = group.corners();
    lemma_distinct_grows(all, part.len() as int);
    assert(all[part.len() - 1] == part.last());
}

/// What holds of a mesh under construction once the references `corners`
/// are taken: `slots` tells, for each vertex of the table that was referred
/// to, where it stands in the mesh.
spec fn built(
    vertices: Seq<Point64>,
    corners: Seq<Corner>,
    positions: Seq<Point64>,
    indices: Seq<u32>,
    slots: Map<usize, usize>,
) -> bool {
    let origins = distinct(corners);
    &&& positions.len() == origins.len()
    &&& positions.len() <= u32::MAX + 1
    &&& indices.len() == corners.len()
    &&& forall|j: int|
        0 <= j < origins.len() ==> (#[trigger] origins[j]) < vertices.len() && positions[j]
            == vertices[origins[j] as int]
    &&& forall|k: int|
        0 <= k < indices.len() ==> (#[trigger] indices[k]) < origins.len()
            && origins[indices[k] as int] == corners[k]
    &&& forall|i: usize| #[trigger] slots.contains_key(i) <==> origins.contains(i)
    &&& forall|i: usize|
        #[trigger] slots.contains_key(i) ==> slots[i] < origins.len() && origins[slots[i] as int]
            == i
}

/// Takes one reference into the mesh under construction. Gives `false`, and
/// leaves the mesh as it is, where the reference names no vertex of the table
/// or the mesh has no index left.
fn take_corner(
    vertices: &Vec<Point64>,
    vertex: usize,
    positions: &mut Vec<Point64>,
    indices: &mut Vec<u32>,
    slots: &mut HashMap<usize, usize>,
    Ghost(corners): Ghost<Seq<Corner>>,
) -> (ok: bool)
    requires
        built(vertices@, corners, old(positions)@, old(indices)@, old(slots)@),
    ensures
        ok ==> built(
            vertices@,
            corners.push(vertex),
            final(positions)@,
            final(indices)@,
            final(slots)@,
        ),
        ok ==> vertex < vertices@.len(),
        !ok ==> vertex >= vertices@.len() || distinct(corners.push(vertex)).len() > u32::MAX + 1,
        !ok ==> final(positions)@ == old(positions)@ && final(indices)@ == old(indices)@
            && final(slots)@ == old(slots)@,
{
    broadcast use vstd::std_specs::hash::group_hash_axioms;

    let ghost origins = distinct(corners);
    let ghost next = corners.push(vertex);
    assert(next.drop_last() =~= corners);
    assert(next.last() == vertex);
    if vertex >= vertices.len() {
        return false;
    }
    let known = match slots.get(&vertex) {
        Some(at) => Some(*at),
        None => None,
    };
    match known {
        Some(at) => {
            assert(slots@.contains_key(vertex));
            assert(origins.contains(vertex));
            assert(distinct(next) == origins);
            indices.push(at as u32);
            true
        },
        None => {
            assert(!slots@.contains_key(vertex));
            assert(!origins.contains(vertex));
            assert(distinct(next) == origins.push(vertex));
            let at = positions.len();
            if at > u32::MAX as usize {
                return false;
            }
            positions.push(vertices[vertex]);
            indices.push(at as u32);
            slots.insert(vertex, at);
            proof {
                let grown = origins.push(vertex);
                assert forall|i: usize| #[trigger] slots@.contains_key(i) <==> grown.contains(
                    i,
                ) by {
                    if i == vertex {
                        assert(grown[origins.len() as int] == vertex);
                    } else {
                        if grown.contains(i) {
                            let j = choose|j: int| 0 <= j < grown.len() && grown[j] == i;
                            assert(origins[j] == i);
                            assert(origins.contains(i));
                        }
                        if old(slots)@.contains_key(i) {
                            let j = choose|j: int| 0 <= j < origins.len() && origins[j] == i;
                            assert(grown[j] == i);
                        }
                    }
                }
            }
            true
        },
    }
}

impl TextGroup {
    /// Counts the corner references of the group, as far as a machine word
    /// counts.
    pub fn size(&self) -> (n: usize)
        ensures
            n == self.measure(),
    {
        let mut n: usize = 0;
        let mut g: usize = 0;
        assert(self.geometry@.take(0) =~= Seq::empty());
        while g < self.geometry.len()
            invariant
                g <= self.geometry@.len(),
                n == if group_corners(self.geometry@.take(g as int)).len() <= usize::MAX {
                    group_corners(self.geometry@.take(g as int)).len()
                } else {
                    usize::MAX as nat
                },
            decreases self.geometry.len() - g,
        {
            let shapes = &self.geometry[g];
            let ghost before = group_corners(self.geometry@.take(g as int));
            assert(self.geometry@.take(g + 1).drop_last() =~= self.geometry@.take(g as int));
            assert(self.geometry@.take(g + 1).last() == self.geometry@[g as int]);
            let mut s: usize = 0;
            assert(shapes@.take(0) =~= Seq::empty());
            while s < shapes.len()
                invariant
                    s <= shapes@.len(),
                    n == if (before + list_corners(shapes@.take(s as int))).len() <= usize::MAX {
                        (before + list_corners(shapes@.take(s as int))).len()
                    } else {
                        usize::MAX as nat
                    },
                decreases shapes.len() - s,
            {
                assert(shapes@.take(s + 1).drop_last() =~= shapes@.take(s as int));
                assert(shapes@.take(s + 1).last() == shapes@[s as int]);
                match shapes[s] {
                    Primitive::Triangle(_, _, _) => {
                        n = if n <= usize::MAX - 3 {
                            n + 3
                        } else {
                            usize::MAX
                        };
                    },
                    _ => {},
                }
                s += 1;
            }
            assert(shapes@.take(s as int) =~= shapes@);
            g += 1;
        }
        assert(self.geometry@.take(g as int) =~= self.geometry@);
        n
    }

    /// Builds the mesh of the group: the vertices that its triangles refer
    /// to, in the order of first reference, and an index for each reference.
    /// Points and lines are passed over. There is no mesh where a reference
    /// names no vertex of the table, or where the vertices of the mesh
    /// outnumber the indices there are.
    pub fn to_mesh(&self) -> (r: Option<Mesh>)
        ensures
            r is Some <==> self.usable(),
            r matches Some(m) ==> self.is_mesh(m@) && m.wf(),
    {
        let count = self.vertices.len();
        let mut slots: HashMap<usize, usize> = HashMap::new();
        let mut positions: Vec<Point64> = Vec::new();
        let mut indices: Vec<u32> = Vec::new();
        let ghost all = self.corners();
        let ghost mut taken: Seq<Corner> = Seq::empty();
        let mut g: usize = 0;
        assert(self.geometry@.take(0) =~= Seq::empty());
        while g < self.geometry.len()
            invariant
                g <= self.geometry@.len(),
                count == self.vertices@.len(),
                all == self.corners(),
                taken == group_corners(self.geometry@.take(g as int)),
                taken.len() % 3 == 0,
                built(self.vertices@, taken, positions@, indices@, slots@),
                forall|k: int| 0 <= k < taken.len() ==> (#[trigger] taken[k]) < count,
            decreases self.geometry.len() - g,
        {
            let shapes = &self.geometry[g];
            let ghost before = taken;
            assert(self.geometry@.take(g + 1).drop_last() =~= self.geometry@.take(g as int));
            assert(self.geometry@.take(g + 1).last() == self.geometry@[g as int]);
            let mut s: usize = 0;
            assert(shapes@.take(0) =~= Seq::empty());
            assert(before + list_corners(shapes@.take(0)) =~= taken);
            while s < shapes.len()
                invariant
                    s <= shapes@.len(),
                    g < self.geometry.len(),
                    shapes == &self.geometry@[g as int],
                    taken.len() % 3 == 0,
                    count == self.vertices@.len(),
                    all == self.corners(),
                    before == group_corners(self.geometry@.take(g as int)),
                    group_corners(self.geometry@.take(g + 1)) == before + list_corners(
                        self.geometry@[g as int]@,
                    ),
                    taken == before + list_corners(shapes@.take(s as int)),
                    built(self.vertices@, taken, positions@, indices@, slots@),
                    forall|k: int| 0 <= k < taken.len() ==> (#[trigger] taken[k]) < count,
                decreases shapes.len() - s,
            {
                assert(shapes@.take(s + 1).drop_last() =~= shapes@.take(s as int));
                assert(shapes@.take(s + 1).last() == shapes@[s as int]);
                match shapes[s] {
                    Primitive::Triangle(a, b, c) => {
                        let ghost t0 = taken;
                        let ghost t1 = t0.push(a);
                        let ghost t2 = t1.push(b);
                        let ghost t3 = t2.push(c);
                        proof {
                            lemma_list_prefix(shapes@, s + 1);
                            lemma_group_prefix(self.geometry@, g + 1);
                            assert(t3 =~= t0 + shape_corners(shapes@[s as int]));
                            assert(t3 =~= before + list_corners(shapes@.take(s + 1)));
                            let list = list_corners(shapes@);
                            let upto = group_corners(self.geometry@.take(g + 1));
                            assert(all.take(t3.len() as int) =~= upto.take(t3.len() as int));
                            assert(upto.take(t3.len() as int) =~= before + list.take(
                                t3.len() - before.len(),
                            ));
                            assert(is_prefix(t3, all));
                            assert(all.take(t1.len() as int) =~= t3.take(t1.len() as int));
                            assert(t3.take(t1.len() as int) =~= t1);
                            assert(all.take(t2.len() as int) =~= t3.take(t2.len() as int));
                            assert(t3.take(t2.len() as int) =~= t2);
                        }
                        let ok = take_corner(
                            &self.vertices,
                            a,
                            &mut positions,
                            &mut indices,
                            &mut slots,
                            Ghost(t0),
                        );
                        if !ok {
                            proof {
                                lemma_prefix_blocks(*self, t1);
                            }
                            return None;
                        }
                        let ok = take_corner(
                            &self.vertices,
                            b,
                            &mut positions,
                            &mut indices,
                            &mut slots,
                            Ghost(t1),
                        );
                        if !ok {
                            proof {
                                lemma_prefix_blocks(*self, t2);
                            }
                            return None;
                        }
                        let ok = take_corner(
                            &self.vertices,
                            c,
                            &mut positions,
                            &mut indices,
                            &mut slots,
                            Ghost(t2),
                        );
                        if !ok {
                            proof {
                                lemma_prefix_blocks(*self, t3);
                            }
                            return None;
                        }
                        proof {
                            taken = t3;
                        }
                    },
                    _ => {
                        assert(taken + shape_corners(shapes@[s as int]) =~= taken);
                    },
                }
                s += 1;
            }
            assert(shapes@.take(s as int) =~= shapes@);
            g += 1;
        }
        assert(self.geometry@.take(g as int) =~= self.geometry@);
        let mesh = Mesh { positions: Positions::Double(positions), indices };
        proof {
            assert(positions@ =~= Seq::new(
                self.origins().len(),
                |j: int| self.vertices@[self.origins()[j] as int],
            ));
        }
        Some(mesh)
    }
}

/// Whether group `d` is the dominant one: no group is larger, and every group
/// before it is smaller.
pub open spec fn is_dominant(groups: Seq<TextGroup>, d: int) -> bool {
    &&& 0 <= d < groups.len()
    &&& forall|j: int| 0 <= j < groups.len() ==> (#[trigger] groups[j]).measure() <= groups[d].measure()
    &&& forall|j: int| 0 <= j < d ==> (#[trigger] groups[j]).measure() < groups[d].measure()
}

/// Finds the dominant group: the first of those with the most corner
/// references. A file without groups has none.
pub fn dominant_group(groups: &Vec<TextGroup>) -> (r: Option<usize>)
    ensures
        r is Some <==> groups@.len() > 0,
        r matches Some(d) ==> is_dominant(groups@, d as int),
{
    if groups.len() == 0 {
        return None;
    }
    let mut best: usize = 0;
    let mut most: usize = groups[0].size();
    let mut j: usize = 1;
    while j < groups.len()
        invariant
            1 <= j <= groups@.len(),
            best < j,
            most == groups@[best as int].measure(),
            forall|i: int| 0 <= i < j ==> (#[trigger] groups@[i]).measure() <= most,
            forall|i: int| 0 <= i < best ==> (#[trigger] groups@[i]).measure() < most,
        decreases groups.len() - j,
    {
        let n = groups[j].size();
        if n > most {
            best = j;
            most = n;
        }
        j += 1;
    }
    Some(best)
}

/// Whether `r` is what the groups of a file give: the mesh of the dominant
/// group where that group holds a triangle and a mesh can be made of it, else
/// a `MeshConvertError`.
pub open spec fn is_dominant_mesh(groups: Seq<TextGroup>, r: Result<MeshView, ParseError>) -> bool {
    &&& r is Ok <==> exists|d: int|
        is_dominant(groups, d) && (#[trigger] groups[d]).measure() > 0 && groups[d].usable()
    &&& r matches Ok(m) ==> m.wf() && forall|d: int|
        is_dominant(groups, d) ==> (#[trigger] groups[d]).is_mesh(m)
    &&& r matches Err(e) ==> e is MeshConvertError
}

/// Turns the groups of a file into the mesh of the file: the mesh of the
/// dominant group. A file without groups, or whose groups hold no triangle,
/// has no mesh; so has one whose dominant group refers to a vertex that its
/// table lacks.
pub fn parse_obj_inner(groups: &Vec<TextGroup>) -> (r: Result<Mesh, ParseError>)
    ensures
        is_dominant_mesh(groups@, mesh_outcome(r)),
{
    match dominant_group(groups) {
        None => Err(ParseError::MeshConvertError(String::from_str("No meshes found in obj model"))),
        Some(best) => {
            proof {
                lemma_one_dominant(groups@, best as int);
            }
            if groups[best].size() == 0 {
                return Err(
                    ParseError::MeshConvertError(String::from_str("No meshes found in obj model")),
                );
            }
            match groups[best].to_mesh() {
                Some(m) => Ok(m),
                None => Err(
                    ParseError::MeshConvertError(
                        String::from_str("A triangle refers to a vertex that the model lacks"),
                    ),
                ),
            }
        },
    }
}

/// A file has one dominant group at most.
pub proof fn lemma_one_dominant(groups: Seq<TextGroup>, d: int)
    requires
        is_dominant(groups, d),
    ensures
        forall|e: int| is_dominant(groups, e) ==> e == d,
{
    assert forall|e: int| is_dominant(groups, e) implies e == d by {
        if e < d {
            assert(groups[e].measure() < groups[d].measure());
            assert(groups[d].measure() <= groups[e].measure());
        } else if d < e {
            assert(groups[d].measure() < groups[e].measure());
            assert(groups[e].measure() <= groups[d].measure());
        }
    }
}

} // verus!
