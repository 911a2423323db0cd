//! What the outside decoders give, taken on trust: each function here calls a
//! function of another crate or of the standard library and states what that
//! function returns. Nothing in this crate proves these statements.
//!
//! Every decoder reads from bytes in memory, so what it returns depends on
//! the bytes alone; the names below stand for those results.

use vstd::prelude::*;
use vstd::string::StringSliceAdditionalSpecFns;
use vstd::utf8::valid_utf8;
use crate::mesh::{Point32, Point64};
use crate::packaging::{BuildItem, ModelObject, ObjectMesh, Triangle};
use crate::soup::IndexedSoup;
use crate::text::{run_end, ByteClass};
use crate::text_mesh::Primitive;

verus! {

/// What `stl_io::read_stl` makes of the bytes: the indexed mesh, or the text
/// of its error.
pub uninterp spec fn stl_model(bytes: Seq<u8>) -> Result<IndexedSoup, String>;

/// An object of the grouped-geometry text format, as `wavefront_obj` holds
/// it.
#[verifier::external_type_specification]
#[verifier::external_body]
pub struct ExObject(wavefront_obj::obj::Object);

/// A model of a package, as `threemf` holds it.
#[verifier::external_type_specification]
#[verifier::external_body]
pub struct ExModel(threemf::model::Model);

/// What `wavefront_obj::obj::parse` makes of a text: its objects, or the text
/// of its error.
pub uninterp spec fn obj_objects(text: Seq<u8>) -> Result<Vec<wavefront_obj::obj::Object>, String>;

/// The vertices that an object of the text format holds, by the bit patterns
/// of their coordinates.
pub uninterp spec fn object_vertices(object: wavefront_obj::obj::Object) -> Vec<Point64>;

/// The primitives that an object of the text format holds, in lists by
/// material, each primitive by the vertex indices of its corners.
pub uninterp spec fn object_geometry(object: wavefront_obj::obj::Object) -> Vec<Vec<Primitive>>;

/// What `threemf::read` makes of the bytes: the models of the package, or
/// the text of its error.
pub uninterp spec fn package_models(bytes: Seq<u8>) -> Result<Vec<threemf::model::Model>, String>;

/// The objects that a model of a package holds, each with its id and its
/// mesh, coordinates by their bit patterns.
pub uninterp spec fn model_objects(model: threemf::model::Model) -> Vec<ModelObject>;

/// The build items that a model of a package holds, each with its object id
/// and its transform, coefficients by their bit patterns.
pub uninterp spec fn model_items(model: threemf::model::Model) -> Vec<BuildItem>;

/// What `zip::ZipArchive` lists in the bytes: for each entry, in the order of
/// the archive, its name or the text of the error on opening it; or the text
/// of the error on opening the archive.
pub uninterp spec fn archive_names(bytes: Seq<u8>) -> Result<Vec<Result<Vec<u8>, String>>, String>;

/// What `zip::ZipArchive` reads from entry `index` of the bytes: the content
/// of the entry, or the text of the error.
pub uninterp spec fn archive_entry(bytes: Seq<u8>, index: usize) -> Result<Vec<u8>, String>;

/// What the standard base64 engine decodes from a text, if it decodes any.
pub uninterp spec fn base64_bytes(text: Seq<u8>) -> Option<Vec<u8>>;

/// `std::str::from_utf8` gives the bytes as text exactly when they are
/// well-formed UTF-8, and the text is made of the same bytes.
#[verifier::external_body]
pub(crate) fn as_text(bytes: &[u8]) -> (r: Option<&str>)
    ensures
        r is Some <==> valid_utf8(bytes@),
        r matches Some(s) ==> s.spec_bytes() == bytes@,
{
    std::str::from_utf8(bytes).ok()
}

/// `stl_io::read_stl` on the bytes: the vertices by the bit patterns of
/// their coordinates and the faces by their vertex indices, or the text of
/// the error. The result depends on the bytes alone.
#[verifier::external_body]
pub(crate) fn read_stl(bytes: &[u8]) -> (r: Result<IndexedSoup, String>)
    ensures
        r == stl_model(bytes@),
{
    let mesh = stl_io::read_stl(&mut std::io::Cursor::new(bytes)).map_err(|e| e.to_string())?;
    Ok(IndexedSoup {
        vertices: mesh.vertices.iter().map(|v| Point32 {
            x: v[0].to_bits(),
            y: v[1].to_bits(),
            z: v[2].to_bits(),
        }).collect(),
        faces: mesh.faces.iter().map(|f| Triangle {
            v1: f.vertices[0],
            v2: f.vertices[1],
            v3: f.vertices[2],
        }).collect(),
    })
}

/// How many digits a negative index may have for `wavefront_obj` to take it.
pub open spec fn index_digits() -> nat {
    if usize::MAX > 0xffff_ffff {
        18
    } else {
        9
    }
}

/// Whether a vertex index can begin at position `p` of the text: there a
/// word begins, or the part of a word after a `/`. The parser ends a word at
/// a space, a tab, a carriage return or a line feed.
pub open spec fn begins_index(text: Seq<u8>, p: int) -> bool {
    p == 0 || (0 < p <= text.len() && (text[p - 1] == 0x20 || text[p - 1] == 0x09 || text[p - 1]
        == 0x0d || text[p - 1] == 0x0a || text[p - 1] == 0x2f))
}

/// Whether the text holds, where a vertex index can begin, a minus sign with
/// more digits after it than a negative index may have.
pub open spec fn has_deep_negative(text: Seq<u8>) -> bool {
    exists|p: int|
        0 <= p < text.len() && text[p] == 0x2d && begins_index(text, p) && #[trigger] run_end(
            text,
            p + 1,
            ByteClass::Digit,
        ) - (p + 1) > index_digits()
}

/// Whether `wavefront_obj` can take the text: the text is not longer than a
/// quarter of what a machine word counts, and holds no negative number of
/// too many digits where a vertex index can begin. A minus sign inside a
/// word, as in a name or an exponent, does not count.
pub open spec fn obj_readable(text: Seq<u8>) -> bool {
    text.len() <= usize::MAX / 4 && !has_deep_negative(text)
}

/// `wavefront_obj::obj::parse` on the text: the objects of the file, or the
/// text of the error. The result depends on the text alone.
///
/// The parser subtracts a negative vertex index from the number of vertices
/// read so far, in a signed machine word, and stops the program where that
/// overflows. It reads an index from the start of a word or from behind a
/// `/` in a word. The precondition leaves out the texts on which the
/// subtraction can overflow: the number of vertices is below the length of
/// the text, and an index of so few digits is small enough.
#[verifier::external_body]
pub(crate) fn read_obj(text: &str) -> (r: Result<Vec<wavefront_obj::obj::Object>, String>)
    requires
        obj_readable(text.spec_bytes()),
    ensures
        r == obj_objects(text.spec_bytes()),
{
    wavefront_obj::obj::parse(text).map(|set| set.objects).map_err(|e| e.to_string())
}

/// The field `vertices` of a `wavefront_obj` object, each vertex by the bit
/// patterns of its coordinates.
#[verifier::external_body]
pub(crate) fn vertices_of(object: &wavefront_obj::obj::Object) -> (r: Vec<Point64>)
    ensures
        r == object_vertices(*object),
{
    object.vertices.iter().map(|v| Point64 {
        x: v.x.to_bits(),
        y: v.y.to_bits(),
        z: v.z.to_bits(),
    }).collect()
}

/// The field `geometry` of a `wavefront_obj` object: the shapes of each
/// geometry, each by its kind and by the vertex indices of its corners.
#[verifier::external_body]
pub(crate) fn geometry_of(object: &wavefront_obj::obj::Object) -> (r: Vec<Vec<Primitive>>)
    ensures
        r == object_geometry(*object),
{
    object.geometry.iter().map(|g| g.shapes.iter().map(|s| match s.primitive {
        wavefront_obj::obj::Primitive::Point(a) => Primitive::Point(a.0),
        wavefront_obj::obj::Primitive::Line(a, b) => Primitive::Line(a.0, b.0),
        wavefront_obj::obj::Primitive::Triangle(a, b, c) => Primitive::Triangle(a.0, b.0, c.0),
    }).collect()).collect()
}

/// `threemf::read` on the bytes: the models of the package, or the text of
/// the error. The result depends on the bytes alone.
#[verifier::external_body]
pub(crate) fn read_models(bytes: &[u8]) -> (r: Result<Vec<threemf::model::Model>, String>)
    ensures
        r == package_models(bytes@),
{
    threemf::read(std::io::Cursor::new(bytes)).map_err(|e| e.to_string())
}

/// The field `resources.object` of a `threemf` model: each object with its
/// id and, where it has a mesh, the vertices and the triangles of the mesh.
#[verifier::external_body]
pub(crate) fn objects_of(model: &threemf::model::Model) -> (r: Vec<ModelObject>)
    ensures
        r == model_objects(*model),
{
    model.resources.object.iter().map(|o| ModelObject {
        id: o.id,
        mesh: o.mesh.as_ref().map(|g| ObjectMesh {
            vertices: g.vertices.vertex.iter().map(|v| Point64 {
                x: v.x.to_bits(),
                y: v.y.to_bits(),
                z: v.z.to_bits(),
            }).collect(),
            triangles: g.triangles.triangle.iter().map(|t| Triangle { v1: t.v1, v2: t.v2, v3: t.v3 }).collect(),
        }),
    }).collect()
}

/// The field `build.item` of a `threemf` model: each item with its object id
/// and its transform.
#[verifier::external_body]
pub(crate) fn items_of(model: &threemf::model::Model) -> (r: Vec<BuildItem>)
    ensures
        r == model_items(*model),
{
    model.build.item.iter().map(|i| BuildItem {
        object_id: i.objectid,
        transform: i.transform.map(|t| t.map(|c| c.to_bits())),
    }).collect()
}

/// `zip::ZipArchive::new` on the bytes, then `by_index` and `name` for each
/// entry: the names as bytes, in the order of the archive. The result depends
/// on the bytes alone.
#[verifier::external_body]
pub(crate) fn entry_names(bytes: &[u8]) -> (r: Result<Vec<Result<Vec<u8>, String>>, String>)
    ensures
        r == archive_names(bytes@),
{
    let mut zip = zip::ZipArchive::new(std::io::Cursor::new(bytes)).map_err(|e| e.to_string())?;
    Ok((0..zip.len()).map(|i| match zip.by_index(i) {
        Ok(file) => file.name().map(|n| n.as_bytes().to_vec()).map_err(|e| e.to_string()),
        Err(e) => Err(e.to_string()),
    }).collect())
}

/// `zip::ZipArchive::new` on the bytes, then `by_index` and `read_to_end`:
/// the content of the entry. The result depends on the bytes and the index
/// alone.
#[verifier::external_body]
pub(crate) fn entry_data(bytes: &[u8], index: usize) -> (r: Result<Vec<u8>, String>)
    ensures
        r == archive_entry(bytes@, index),
{
    let mut zip = zip::ZipArchive::new(std::io::Cursor::new(bytes)).map_err(|e| e.to_string())?;
    let mut file = zip.by_index(index).map_err(|e| e.to_string())?;
    let mut data = Vec::new();
    std::io::Read::read_to_end(&mut file, &mut data).map_err(|e| e.to_string())?;
    Ok(data)
}

/// `Engine::decode` of `base64::prelude::BASE64_STANDARD` on the text. The
/// result depends on the text alone.
#[verifier::external_body]
pub(crate) fn decode_base64(text: &[u8]) -> (r: Option<Vec<u8>>)
    ensures
        r == base64_bytes(text@),
{
    base64::Engine::decode(&base64::prelude::BASE64_STANDARD, text).ok()
}

} // verus!
