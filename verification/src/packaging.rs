//! The packaging format: a graph of objects and build items, assembled into
//! placed parts and split by the colour volumes that a slicer recorded.

use std::collections::HashMap;
use vstd::prelude::*;
use vstd::string::StringExecFns;
use crate::error::ParseError;
use crate::mesh::{
    part_views, parts_wf, Mesh, MeshView, MeshWithTransform, ParseResult, PartView, Placement,
    PlacementView, Point64, Positions, PositionsView, Rgb,
};

verus! {

/// One triangle of an object's mesh: three indices into its vertex list.
#[derive(Clone, Copy, Debug, PartialEq, Eq, Structural)]
pub struct Triangle {
    pub v1: usize,
    pub v2: usize,
    pub v3: usize,
}

/// The mesh that an object owns.
#[derive(Clone, Debug, PartialEq, Eq)]
pub struct ObjectMesh {
    pub vertices: Vec<Point64>,
    pub triangles: Vec<Triangle>,
}

/// An object of the model graph, with the mesh it owns, if any.
#[derive(Clone, Debug, PartialEq, Eq)]
pub struct ModelObject {
    pub id: usize,
    pub mesh: Option<ObjectMesh>,
}

/// A placement of one object: the object's id and, where the item moves the
/// object, the twelve coefficients of its affine transform.
#[derive(Clone, Copy, Debug, PartialEq, Eq)]
pub struct BuildItem {
    pub object_id: usize,
    pub transform: Option<[u64; 12]>,
}

/// The model graph: the objects and the build list, in file order.
#[derive(Clone, Debug, PartialEq, Eq)]
pub struct ModelGraph {
    pub objects: Vec<ModelObject>,
    pub items: Vec<BuildItem>,
}

/// A run of triangles of one object, `first` to `last` inclusive, with the
/// colour resolved for it.
#[derive(Clone, Copy, Debug, PartialEq, Eq, Structural)]
pub struct VolumeRange {
    pub object_id: usize,
    pub first: usize,
    pub last: usize,
    pub color: Option<Rgb>,
}

impl VolumeRange {
    /// The range invariant: it holds at least one triangle.
    pub open spec fn wf(self) -> bool {
        self.first <= self.last
    }

    /// Whether the range is sound and lies within `count` triangles.
    pub open spec fn fits(self, count: nat) -> bool {
        self.first <= self.last < count
    }
}

/// Corner `j` of a triangle.
pub open spec fn corner(t: Triangle, j: int) -> usize {
    if j == 0 {
        t.v1
    } else if j == 1 {
        t.v2
    } else {
        t.v3
    }
}

/// The index list of a run of triangles: three corners per triangle, in order.
pub open spec fn corners(triangles: Seq<Triangle>) -> Seq<u32> {
    Seq::new(3 * triangles.len(), |k: int| corner(triangles[k / 3], k % 3) as u32)
}

/// Whether every corner of the triangle names one of `count` vertices and
/// fits an index of the unified mesh.
pub open spec fn triangle_ok(t: Triangle, count: nat) -> bool {
    &&& t.v1 < count && t.v1 <= u32::MAX
    &&& t.v2 < count && t.v2 <= u32::MAX
    &&& t.v3 < count && t.v3 <= u32::MAX
}

impl ObjectMesh {
    /// Whether every triangle refers to vertices that the mesh has.
    pub open spec fn sound(&self) -> bool {
        forall|k: int|
            0 <= k < self.triangles@.len() ==> triangle_ok(
                #[trigger] self.triangles@[k],
                self.vertices@.len(),
            )
    }

    /// The mesh made of all the vertices and of the triangles `from .. to`.
    pub open spec fn slice(&self, from: int, to: int) -> MeshView {
        MeshView {
            positions: PositionsView::Double(self.vertices@),
            indices: corners(self.triangles@.subrange(from, to)),
        }
    }

    /// The mesh made of all the vertices and all the triangles.
    pub open spec fn whole(&self) -> MeshView {
        self.slice(0, self.triangles@.len() as int)
    }

    /// The part that a volume range cuts out of the mesh under a placement.
    pub open spec fn volume_part(&self, placement: PlacementView, range: VolumeRange) -> PartView {
        PartView {
            mesh: self.slice(range.first as int, range.last + 1),
            transform: placement,
            color: range.color,
        }
    }

    /// The parts that the ranges recorded for object `id` cut out of the mesh,
    /// in the order of the ranges. A range that does not fit the mesh gives
    /// no part.
    pub open spec fn volume_parts(
        &self,
        placement: PlacementView,
        id: usize,
        ranges: Seq<VolumeRange>,
    ) -> Seq<PartView>
        decreases ranges.len(),
    {
        if ranges.len() == 0 {
            Seq::empty()
        } else {
            let before = self.volume_parts(placement, id, ranges.drop_last());
            let range = ranges.last();
            if range.object_id == id && range.fits(self.triangles@.len()) {
                before.push(self.volume_part(placement, range))
            } else {
                before
            }
        }
    }

    /// The parts that one placement of the mesh gives: one per fitting range
    /// where ranges are recorded for the object, else the whole mesh without
    /// a colour.
    pub open spec fn placed_parts(
        &self,
        placement: PlacementView,
        id: usize,
        ranges: Seq<VolumeRange>,
    ) -> Seq<PartView> {
        if has_volumes(ranges, id) {
            self.volume_parts(placement, id, ranges)
        } else {
            seq![PartView { mesh: self.whole(), transform: placement, color: None }]
        }
    }

    /// Checks that every triangle refers to vertices that the mesh has.
    pub fn is_sound(&self) -> (r: bool)
        ensures
            r == self.sound(),
    {
        let count = self.vertices.len();
        let mut k: usize = 0;
        while k < self.triangles.len()
            invariant
                k <= self.triangles@.len(),
                count == self.vertices@.len(),
                forall|j: int| 0 <= j < k ==> triangle_ok(#[trigger] self.triangles@[j], count as nat),
            decreases self.triangles.len() - k,
        {
            let t = self.triangles[k];
            let ok = t.v1 < count && t.v1 <= u32::MAX as usize && t.v2 < count && t.v2
                <= u32::MAX as usize && t.v3 < count && t.v3 <= u32::MAX as usize;
            if !ok {
                return false;
            }
            k += 1;
        }
        true
    }

    /// Builds the mesh of the triangles `from .. to` over all the vertices.
    pub fn cut(&self, from: usize, to: usize) -> (m: Mesh)
        requires
            self.sound(),
            from <= to <= self.triangles@.len(),
        ensures
            m@ == self.slice(from as int, to as int),
            m.wf(),
    {
        let mut positions: Vec<Point64> = Vec::new();
        let mut i: usize = 0;
        while i < self.vertices.len()
            invariant
                i <= self.vertices@.len(),
                positions@ == self.vertices@.take(i as int),
            decreases self.vertices.len() - i,
        {
            positions.push(self.vertices[i]);
            i += 1;
            assert(self.vertices@.take(i as int) =~= self.vertices@.take(i - 1).push(
                self.vertices@[i - 1],
            ));
        }
        assert(self.vertices@.take(i as int) =~= self.vertices@);
        let ghost run = self.triangles@.subrange(from as int, to as int);
        let mut indices: Vec<u32> = Vec::new();
        let mut k: usize = from;
        while k < to
            invariant
                from <= k <= to <= self.triangles@.len(),
                self.sound(),
                run == self.triangles@.subrange(from as int, to as int),
                indices@.len() == 3 * (k - from),
                forall|j: int| 0 <= j < indices@.len() ==> indices@[j] == corners(run)[j],
            decreases to - k,
        {
            let t = self.triangles[k];
            assert(triangle_ok(self.triangles@[k as int], self.vertices@.len()));
            assert(run[k - from] == t);
            indices.push(t.v1 as u32);
            indices.push(t.v2 as u32);
            indices.push(t.v3 as u32);
            k += 1;
        }
        assert(indices@ =~= corners(run));
        let m = Mesh { positions: Positions::Double(positions), indices };
        assert forall|j: int| 0 <= j < m@.indices.len() implies (#[trigger] m@.indices[j])
            < m@.positions.len() by {
            assert(triangle_ok(self.triangles@[from + j / 3], self.vertices@.len()));
            assert(run[j / 3] == self.triangles@[from + j / 3]);
        }
        m
    }
}

/// Whether any range is recorded for object `id`.
pub open spec fn has_volumes(ranges: Seq<VolumeRange>, id: usize) -> bool {
    exists|k: int| 0 <= k < ranges.len() && (#[trigger] ranges[k]).object_id == id
}

/// The placement that a build item asks for.
pub open spec fn placement_of(transform: Option<[u64; 12]>) -> PlacementView {
    match transform {
        Some(t) => PlacementView::Affine(t@),
        None => PlacementView::Identity,
    }
}

/// The object that answers to `id`: the last one with that id that owns a
/// mesh.
pub open spec fn owner(objects: Seq<ModelObject>, id: usize) -> Option<int>
    decreases objects.len(),
{
    if objects.len() == 0 {
        None
    } else if objects.last().id == id && objects.last().mesh is Some {
        Some(objects.len() - 1)
    } else {
        owner(objects.drop_last(), id)
    }
}

/// The parts that the build items give, in the order of the items. An item
/// whose object is missing or owns no mesh gives no part.
pub open spec fn build_parts(
    objects: Seq<ModelObject>,
    items: Seq<BuildItem>,
    ranges: Seq<VolumeRange>,
) -> Seq<PartView>
    decreases items.len(),
{
    if items.len() == 0 {
        Seq::empty()
    } else {
        let before = build_parts(objects, items.drop_last(), ranges);
        let item = items.last();
        match owner(objects, item.object_id) {
            Some(j) => before + objects[j].mesh->0.placed_parts(
                placement_of(item.transform),
                item.object_id,
                ranges,
            ),
            None => before,
        }
    }
}

/// The parts of the recovery path: every object that owns a mesh, whole, not
/// moved and not coloured, in file order.
pub open spec fn fallback_parts(objects: Seq<ModelObject>) -> Seq<PartView>
    decreases objects.len(),
{
    if objects.len() == 0 {
        Seq::empty()
    } else {
        let before = fallback_parts(objects.drop_last());
        match objects.last().mesh {
            Some(m) => before.push(PartView::plain(m.whole())),
            None => before,
        }
    }
}

/// Whether the map holds, for each object that has ranges recorded, the
/// ranges recorded for it, in their order.
spec fn groups(map: Map<usize, Vec<VolumeRange>>, ranges: Seq<VolumeRange>) -> bool {
    &&& forall|id: usize| #[trigger] map.contains_key(id) <==> ranges_of(ranges, id).len() > 0
    &&& forall|id: usize| #[trigger] map.contains_key(id) ==> map[id]@ == ranges_of(ranges, id)
}

/// Gathers the ranges by the object they are recorded for.
fn by_object(ranges: &Vec<VolumeRange>) -> (map: HashMap<usize, Vec<VolumeRange>>)
    ensures
        groups(map@, ranges@),
{
    broadcast use vstd::std_specs::hash::group_hash_axioms;

    let mut map: HashMap<usize, Vec<VolumeRange>> = HashMap::new();
    let mut k: usize = 0;
    assert(ranges@.take(0) =~= Seq::empty());
    while k < ranges.len()
        invariant
            k <= ranges@.len(),
            groups(map@, ranges@.take(k as int)),
        decreases ranges.len() - k,
    {
        let range = ranges[k];
        let id = range.object_id;
        let ghost before = map@;
        let ghost taken = ranges@.take(k as int);
        assert(ranges@.take(k + 1).drop_last() =~= taken);
        assert(ranges@.take(k + 1).last() == range);
        let mut list = match map.remove(&id) {
            Some(list) => list,
            None => Vec::new(),
        };
        assert(list@ =~= ranges_of(taken, id));
        list.push(range);
        map.insert(id, list);
        assert forall|other: usize| #[trigger]
            map@.contains_key(other) implies map@[other]@ == ranges_of(
            ranges@.take(k + 1),
            other,
        ) by {
            if other != id {
                assert(before.contains_key(other));
            }
        }
        assert forall|other: usize| #[trigger]
            map@.contains_key(other) <==> ranges_of(ranges@.take(k + 1), other).len() > 0 by {
            if other != id {
                assert(map@.contains_key(other) <==> before.contains_key(other));
            }
        }
        k += 1;
    }
    assert(ranges@.take(k as int) =~= ranges@);
    map
}

/// Appends the parts that one placement of a mesh gives. `own` holds the
/// ranges recorded for the object of the item, if any are.
fn push_placed(
    parts: &mut Vec<MeshWithTransform>,
    mesh: &ObjectMesh,
    item: &BuildItem,
    own: Option<&Vec<VolumeRange>>,
    Ghost(ranges): Ghost<Seq<VolumeRange>>,
)
    requires
        mesh.sound(),
        parts_wf(part_views(old(parts)@)),
        match own {
            Some(list) => list@ == ranges_of(ranges, item.object_id) && list@.len() > 0,
            None => ranges_of(ranges, item.object_id).len() == 0,
        },
    ensures
        part_views(final(parts)@) == part_views(old(parts)@) + mesh.placed_parts(
            placement_of(item.transform),
            item.object_id,
            ranges,
        ),
        parts_wf(part_views(final(parts)@)),
{
    let transform = match item.transform {
        Some(t) => Placement::Affine(t),
        None => Placement::Identity,
    };
    let id = item.object_id;
    let ghost placement = placement_of(item.transform);
    let ghost start = part_views(parts@);
    proof {
        lemma_parts_of_own_ranges(*mesh, placement, id, ranges);
    }
    match own {
        Some(list) => {
            let mut k: usize = 0;
            assert(list@.take(0) =~= Seq::empty());
            assert(part_views(parts@) =~= start + mesh.volume_parts(placement, id, list@.take(0)));
            while k < list.len()
                invariant
                    k <= list@.len(),
                    mesh.sound(),
                    transform@ == placement,
                    parts_wf(part_views(parts@)),
                    part_views(parts@) == start + mesh.volume_parts(
                        placement,
                        id,
                        list@.take(k as int),
                    ),
                decreases list.len() - k,
            {
                let range = list[k];
                let ghost before = part_views(parts@);
                assert(list@.take(k + 1).drop_last() =~= list@.take(k as int));
                assert(list@.take(k + 1).last() == range);
                if range.object_id == id && range.first <= range.last && range.last
                    < mesh.triangles.len() {
                    let cut = mesh.cut(range.first, range.last + 1);
                    parts.push(MeshWithTransform { mesh: cut, transform, color: range.color });
                    assert(part_views(parts@) =~= before.push(mesh.volume_part(placement, range)));
                }
                k += 1;
            }
            assert(list@.take(k as int) =~= list@);
        },
        None => {
            let cut = mesh.cut(0, mesh.triangles.len());
            parts.push(MeshWithTransform { mesh: cut, transform, color: None });
            assert(part_views(parts@) =~= start + seq![
                PartView { mesh: mesh.whole(), transform: placement, color: None },
            ]);
        },
    }
}

impl ModelGraph {
    /// Maps each id to the object that answers to it.
    fn owners(&self) -> (map: HashMap<usize, usize>)
        ensures
            forall|id: usize| #[trigger]
                map@.contains_key(id) <==> owner(self.objects@, id) is Some,
            forall|id: usize| #[trigger]
                map@.contains_key(id) ==> owner(self.objects@, id) == Some(map@[id] as int)
                    && map@[id] < self.objects@.len() && self.objects@[map@[id] as int].mesh
                    is Some,
    {
        broadcast use vstd::std_specs::hash::group_hash_axioms;

        let mut map: HashMap<usize, usize> = HashMap::new();
        let mut j: usize = 0;
        assert(self.objects@.take(0) =~= Seq::empty());
        while j < self.objects.len()
            invariant
                j <= self.objects@.len(),
                forall|id: usize| #[trigger]
                    map@.contains_key(id) <==> owner(self.objects@.take(j as int), id) is Some,
                forall|id: usize| #[trigger]
                    map@.contains_key(id) ==> owner(self.objects@.take(j as int), id) == Some(
                        map@[id] as int,
                    ) && map@[id] < j && self.objects@[map@[id] as int].mesh is Some,
            decreases self.objects.len() - j,
        {
            assert(self.objects@.take(j + 1).drop_last() =~= self.objects@.take(j as int));
            assert(self.objects@.take(j + 1).last() == self.objects@[j as int]);
            if self.objects[j].mesh.is_some() {
                map.insert(self.objects[j].id, j);
            }
            j += 1;
        }
        assert(self.objects@.take(j as int) =~= self.objects@);
        map
    }

    /// Tells whether some object owns a mesh.
    pub fn owns_any_mesh(&self) -> (r: bool)
        ensures
            r == self.has_mesh(),
    {
        let mut j: usize = 0;
        while j < self.objects.len()
            invariant
                j <= self.objects@.len(),
                forall|i: int| 0 <= i < j ==> (#[trigger] self.objects@[i]).mesh is None,
            decreases self.objects.len() - j,
        {
            if self.objects[j].mesh.is_some() {
                return true;
            }
            j += 1;
        }
        false
    }

    /// Assembles the placed parts of the scene.
    ///
    /// Every build item whose object owns a mesh gives the parts that `ranges`
    /// cut out of that mesh, or the whole mesh where no range is recorded for
    /// the object. Where the build list gives nothing, every object that owns
    /// a mesh is emitted whole. A graph without any mesh is refused; so is one
    /// in which a mesh that the scene takes has a triangle that refers to a
    /// vertex the mesh does not have. A mesh that the scene does not take is
    /// not looked at.
    pub fn assemble(&self, ranges: &Vec<VolumeRange>) -> (r: Result<ParseResult, ParseError>)
        ensures
            is_assembled(self.objects@, self.items@, ranges@, r),
    {
        if !self.owns_any_mesh() {
            return Err(
                ParseError::MeshConvertError(String::from_str("No meshes found in 3mf model")),
            );
        }
        let owners = self.owners();
        let volumes = by_object(ranges);
        let mut parts: Vec<MeshWithTransform> = Vec::new();
        let mut k: usize = 0;
        assert(self.items@.take(0) =~= Seq::empty());
        assert(part_views(parts@) =~= Seq::empty());
        while k < self.items.len()
            invariant
                k <= self.items@.len(),
                self.has_mesh(),
                groups(volumes@, ranges@),
                forall|id: usize| #[trigger]
                    owners@.contains_key(id) <==> owner(self.objects@, id) is Some,
                forall|id: usize| #[trigger]
                    owners@.contains_key(id) ==> owner(self.objects@, id) == Some(
                        owners@[id] as int,
                    ) && owners@[id] < self.objects@.len()
                        && self.objects@[owners@[id] as int].mesh is Some,
                forall|i: int|
                    0 <= i < k ==> (owner(self.objects@, (#[trigger] self.items@[i]).object_id)
                        matches Some(j) ==> self.objects@[j].mesh->0.sound()),
                parts_wf(part_views(parts@)),
                part_views(parts@) == build_parts(self.objects@, self.items@.take(k as int), ranges@),
            decreases self.items.len() - k,
        {
            let item = self.items[k];
            assert(self.items@.take(k + 1).drop_last() =~= self.items@.take(k as int));
            assert(self.items@.take(k + 1).last() == item);
            let found = match owners.get(&item.object_id) {
                Some(j) => Some(*j),
                None => None,
            };
            assert(found is Some <==> owners@.contains_key(item.object_id));
            assert(found matches Some(j) ==> owners@[item.object_id] == j);
            match found {
                Some(j) => {
                    match &self.objects[j].mesh {
                        Some(mesh) => {
                            if !mesh.is_sound() {
                                assert(!items_sound(self.objects@, self.items@)) by {
                                    assert(self.items@[k as int] == item);
                                }
                                return Err(
                                    ParseError::MeshConvertError(
                                        String::from_str(
                                            "A triangle refers to a vertex that the model lacks",
                                        ),
                                    ),
                                );
                            }
                            let own = volumes.get(&item.object_id);
                            assert(own is Some <==> volumes@.contains_key(item.object_id));
                            assert(own matches Some(list) ==> *list
                                == volumes@[item.object_id]);
                            push_placed(&mut parts, mesh, &item, own, Ghost(ranges@));
                        },
                        None => {},
                    }
                },
                None => {},
            }
            k += 1;
        }
        assert(self.items@.take(k as int) =~= self.items@);
        if parts.len() == 0 {
            let mut j: usize = 0;
            assert(self.objects@.take(0) =~= Seq::empty());
            while j < self.objects.len()
                invariant
                    j <= self.objects@.len(),
                    build_parts(self.objects@, self.items@, ranges@).len() == 0,
                    forall|i: int|
                        0 <= i < j ==> ((#[trigger] self.objects@[i]).mesh matches Some(m)
                            ==> m.sound()),
                    parts_wf(part_views(parts@)),
                    part_views(parts@) == fallback_parts(self.objects@.take(j as int)),
                decreases self.objects.len() - j,
            {
                assert(self.objects@.take(j + 1).drop_last() =~= self.objects@.take(j as int));
                assert(self.objects@.take(j + 1).last() == self.objects@[j as int]);
                let ghost before = part_views(parts@);
                match &self.objects[j].mesh {
                    Some(mesh) => {
                        if !mesh.is_sound() {
                            return Err(
                                ParseError::MeshConvertError(
                                    String::from_str(
                                        "A triangle refers to a vertex that the model lacks",
                                    ),
                                ),
                            );
                        }
                        let cut = mesh.cut(0, mesh.triangles.len());
                        parts.push(
                            MeshWithTransform {
                                mesh: cut,
                                transform: Placement::Identity,
                                color: None,
                            },
                        );
                        assert(part_views(parts@) =~= before.push(PartView::plain(mesh.whole())));
                    },
                    None => {},
                }
                j += 1;
            }
            assert(self.objects@.take(j as int) =~= self.objects@);
        }
        Ok(ParseResult::multiple(parts))
    }

    /// Whether some object owns a mesh.
    pub open spec fn has_mesh(&self) -> bool {
        owns_mesh(self.objects@)
    }

    /// Whether every mesh of the graph refers only to vertices that it has.
    pub open spec fn sound(&self) -> bool {
        all_sound(self.objects@)
    }

    /// The parts of the scene: those of the build list, or, where the build
    /// list gives none, those of the recovery path.
    pub open spec fn parts(&self, ranges: Seq<VolumeRange>) -> Seq<PartView> {
        scene_parts(self.objects@, self.items@, ranges)
    }
}

/// Whether some object owns a mesh.
pub open spec fn owns_mesh(objects: Seq<ModelObject>) -> bool {
    exists|j: int| 0 <= j < objects.len() && (#[trigger] objects[j]).mesh is Some
}

/// Whether every mesh of the objects refers only to vertices that it has.
pub open spec fn all_sound(objects: Seq<ModelObject>) -> bool {
    forall|j: int|
        0 <= j < objects.len() ==> ((#[trigger] objects[j]).mesh matches Some(m) ==> m.sound())
}

/// The parts of the scene: those of the build list, or, where the build list
/// gives none, those of the recovery path.
pub open spec fn scene_parts(
    objects: Seq<ModelObject>,
    items: Seq<BuildItem>,
    ranges: Seq<VolumeRange>,
) -> Seq<PartView> {
    let built = build_parts(objects, items, ranges);
    if built.len() > 0 {
        built
    } else {
        fallback_parts(objects)
    }
}

/// Whether every mesh that answers a build item is sound.
pub open spec fn items_sound(objects: Seq<ModelObject>, items: Seq<BuildItem>) -> bool {
    forall|k: int|
        0 <= k < items.len() ==> (owner(objects, (#[trigger] items[k]).object_id) matches Some(j)
            ==> objects[j].mesh->0.sound())
}

/// Whether every mesh that the scene takes is sound: each mesh that answers
/// a build item, and, where the build list gives no part, each mesh there is.
pub open spec fn scene_sound(
    objects: Seq<ModelObject>,
    items: Seq<BuildItem>,
    ranges: Seq<VolumeRange>,
) -> bool {
    &&& items_sound(objects, items)
    &&& build_parts(objects, items, ranges).len() == 0 ==> all_sound(objects)
}

/// Whether `r` is what assembling the objects and the build items gives:
/// the parts of the scene where some object owns a mesh and every mesh that
/// the scene takes is sound, else a `MeshConvertError`.
pub open spec fn is_assembled(
    objects: Seq<ModelObject>,
    items: Seq<BuildItem>,
    ranges: Seq<VolumeRange>,
    r: Result<ParseResult, ParseError>,
) -> bool {
    &&& r is Ok <==> owns_mesh(objects) && scene_sound(objects, items, ranges)
    &&& r matches Ok(scene) ==> scene@ == scene_parts(objects, items, ranges) && scene.wf()
    &&& r matches Err(e) ==> e is MeshConvertError
}


/// The index lists of the parts, joined in the order of the parts.
pub open spec fn joined_indices(parts: Seq<PartView>) -> Seq<u32>
    decreases parts.len(),
{
    if parts.len() == 0 {
        Seq::empty()
    } else {
        joined_indices(parts.drop_last()) + parts.last().mesh.indices
    }
}

/// Whether the ranges belong to object `id` and follow one another from the
/// first triangle to the last of `count`, without gap or overlap.
pub open spec fn contiguous(ranges: Seq<VolumeRange>, id: usize, count: nat) -> bool {
    &&& ranges.len() > 0
    &&& forall|i: int|
        0 <= i < ranges.len() ==> (#[trigger] ranges[i]).wf() && ranges[i].object_id == id
    &&& ranges[0].first == 0
    &&& forall|i: int| 0 <= i < ranges.len() - 1 ==> (#[trigger] ranges[i + 1]).first == ranges[i].last + 1
    &&& ranges.last().last + 1 == count
}

/// The index lists of two adjoining runs of triangles join to the index list
/// of the whole run.
proof fn lemma_corners_join(triangles: Seq<Triangle>, mid: int, end: int)
    requires
        0 <= mid <= end <= triangles.len(),
    ensures
        corners(triangles.subrange(0, mid)) + corners(triangles.subrange(mid, end)) == corners(
            triangles.subrange(0, end),
        ),
{
    let left = corners(triangles.subrange(0, mid));
    let right = corners(triangles.subrange(mid, end));
    let all = corners(triangles.subrange(0, end));
    assert((left + right).len() == all.len());
    assert forall|k: int| 0 <= k < all.len() implies (left + right)[k] == all[k] by {
        if k >= 3 * mid {
            assert((k - 3 * mid) / 3 == k / 3 - mid);
            assert((k - 3 * mid) % 3 == k % 3);
        }
    }
    assert(left + right =~= all);
}

/// The first `n` ranges of a contiguous list cut the first triangles of the
/// mesh, up to the end of range `n - 1`, into one part each.
proof fn lemma_prefix_rebuilds(
    mesh: ObjectMesh,
    placement: PlacementView,
    id: usize,
    ranges: Seq<VolumeRange>,
    n: int,
)
    requires
        contiguous(ranges, id, mesh.triangles@.len()),
        0 < n <= ranges.len(),
    ensures
        mesh.volume_parts(placement, id, ranges.take(n)).len() == n,
        joined_indices(mesh.volume_parts(placement, id, ranges.take(n))) == corners(
            mesh.triangles@.subrange(0, ranges[n - 1].last + 1),
        ),
        ranges[n - 1].last < mesh.triangles@.len(),
    decreases n,
{
    lemma_ordered(ranges, n - 1, ranges.len() - 1);
    let head = ranges.take(n);
    let range = ranges[n - 1];
    assert(head.last() == range);
    assert(head.drop_last() =~= ranges.take(n - 1));
    let before = mesh.volume_parts(placement, id, ranges.take(n - 1));
    let now = mesh.volume_parts(placement, id, head);
    assert(now == before.push(mesh.volume_part(placement, range)));
    assert(now.drop_last() =~= before);
    if n == 1 {
        assert(before =~= Seq::empty());
        assert(joined_indices(before) =~= Seq::empty());
        assert(joined_indices(now) =~= corners(mesh.triangles@.subrange(0, range.last + 1)));
    } else {
        lemma_prefix_rebuilds(mesh, placement, id, ranges, n - 1);
        assert(ranges[n - 2 + 1].first == ranges[n - 2].last + 1);
        lemma_corners_join(mesh.triangles@, range.first as int, range.last + 1);
    }
}

/// In a contiguous list a later range ends after an earlier one.
proof fn lemma_ordered(ranges: Seq<VolumeRange>, i: int, j: int)
    requires
        ranges.len() > 0,
        forall|k: int| 0 <= k < ranges.len() ==> (#[trigger] ranges[k]).wf(),
        forall|k: int| 0 <= k < ranges.len() - 1 ==> (#[trigger] ranges[k + 1]).first == ranges[k].last + 1,
        0 <= i <= j < ranges.len(),
    ensures
        ranges[i].last <= ranges[j].last,
    decreases j - i,
{
    if i < j {
        lemma_ordered(ranges, i, j - 1);
        assert(ranges[j - 1 + 1].first == ranges[j - 1].last + 1);
        assert(ranges[j].wf());
    }
}

/// The ranges of the list that are recorded for object `id`, in the order of
/// the list.
pub open spec fn ranges_of(ranges: Seq<VolumeRange>, id: usize) -> Seq<VolumeRange>
    decreases ranges.len(),
{
    if ranges.len() == 0 {
        Seq::empty()
    } else if ranges.last().object_id == id {
        ranges_of(ranges.drop_last(), id).push(ranges.last())
    } else {
        ranges_of(ranges.drop_last(), id)
    }
}

/// The ranges recorded for other objects cut nothing out of a mesh: the
/// parts are those that the object's own ranges cut.
proof fn lemma_parts_of_own_ranges(
    mesh: ObjectMesh,
    placement: PlacementView,
    id: usize,
    ranges: Seq<VolumeRange>,
)
    ensures
        mesh.volume_parts(placement, id, ranges) == mesh.volume_parts(
            placement,
            id,
            ranges_of(ranges, id),
        ),
        ranges_of(ranges, id).len() > 0 <==> has_volumes(ranges, id),
    decreases ranges.len(),
{
    if ranges.len() > 0 {
        lemma_parts_of_own_ranges(mesh, placement, id, ranges.drop_last());
        let own = ranges_of(ranges.drop_last(), id);
        if ranges.last().object_id == id {
            assert(own.push(ranges.last()).drop_last() =~= own);
            assert(ranges[ranges.len() - 1].object_id == id);
        } else {
            if own.len() > 0 {
                let init = ranges.drop_last();
                let k = choose|k: int| 0 <= k < init.len() && (#[trigger] init[k]).object_id == id;
                assert(ranges[k].object_id == id);
            }
            if has_volumes(ranges, id) {
                let k = choose|k: int| 0 <= k < ranges.len() && (#[trigger] ranges[k]).object_id == id;
                assert(ranges.drop_last()[k].object_id == id);
            }
        }
    }
}

/// Where the ranges are contiguous and cover the mesh, one part comes out
/// per range, and the parts join to the whole mesh.
proof fn lemma_own_volumes_rebuild(
    mesh: ObjectMesh,
    placement: PlacementView,
    id: usize,
    ranges: Seq<VolumeRange>,
)
    requires
        contiguous(ranges, id, mesh.triangles@.len()),
    ensures
        mesh.volume_parts(placement, id, ranges).len() == ranges.len(),
        joined_indices(mesh.volume_parts(placement, id, ranges)) == mesh.whole().indices,
{
    lemma_prefix_rebuilds(mesh, placement, id, ranges, ranges.len() as int);
    assert(ranges.take(ranges.len() as int) =~= ranges);
    assert(mesh.triangles@.subrange(0, mesh.triangles@.len() as int) =~= mesh.triangles@);
}

/// Splitting by volume loses nothing: where the ranges recorded for an object
/// are contiguous and cover all the triangles of its mesh, one part comes out
/// per range of the object, and the index lists of the parts, joined in
/// order, are the index list of the whole mesh. The list may hold the ranges
/// of other objects too, anywhere among those of the object.
pub proof fn lemma_volumes_rebuild_mesh(
    mesh: ObjectMesh,
    placement: PlacementView,
    id: usize,
    ranges: Seq<VolumeRange>,
)
    requires
        contiguous(ranges_of(ranges, id), id, mesh.triangles@.len()),
    ensures
        mesh.placed_parts(placement, id, ranges).len() == ranges_of(ranges, id).len(),
        joined_indices(mesh.placed_parts(placement, id, ranges)) == mesh.whole().indices,
{
    lemma_parts_of_own_ranges(mesh, placement, id, ranges);
    lemma_own_volumes_rebuild(mesh, placement, id, ranges_of(ranges, id));
}

/// The recovery path gives a part for every object that owns a mesh, so it
/// gives one at least where some object owns a mesh.
proof fn lemma_fallback_is_not_empty(objects: Seq<ModelObject>)
    requires
        owns_mesh(objects),
    ensures
        fallback_parts(objects).len() >= 1,
    decreases objects.len(),
{
    let j = choose|j: int| 0 <= j < objects.len() && (#[trigger] objects[j]).mesh is Some;
    if j < objects.len() - 1 {
        assert(objects.drop_last()[j] == objects[j]);
        lemma_fallback_is_not_empty(objects.drop_last());
    }
}

/// A scene is never empty: where some object owns a mesh, assembling gives
/// one part at least, whatever the build list and the volumes are.
pub proof fn lemma_scene_is_not_empty(
    objects: Seq<ModelObject>,
    items: Seq<BuildItem>,
    ranges: Seq<VolumeRange>,
)
    requires
        owns_mesh(objects),
    ensures
        scene_parts(objects, items, ranges).len() >= 1,
{
    lemma_fallback_is_not_empty(objects);
}

} // verus!
