//! The readers: from the bytes of a file to the parts of its scene, through
//! the decoder of its format.

use vstd::prelude::*;
use vstd::string::{StringExecFns, StringSliceAdditionalSpecFns};
use vstd::utf8::valid_utf8;
use crate::decode::{
    archive_entry, archive_names, as_text, entry_data, entry_names, geometry_of,
    begins_index, has_deep_negative, index_digits, items_of, obj_readable,
    model_items, model_objects, obj_objects, object_geometry, object_vertices, objects_of,
    package_models, read_models, read_obj, read_stl, stl_model, vertices_of,
};
use crate::error::ParseError;
use crate::format::{format_of, SourceFormat};
use crate::mesh::{mesh_outcome, Mesh, MeshView, ParseResult, PartView, Rgb};
use crate::packaging::{is_assembled, BuildItem, ModelGraph, ModelObject, VolumeRange};
use crate::slicer::{
    extruder_table, parse_extruder_colors, parse_slic3r_volumes, volume_stream,
};
use crate::soup::{is_soup_mesh, parse_stl_inner};
use crate::text::{ends_with, has_suffix, run_end, scan_run, stands_at, ByteClass};
use crate::text_mesh::{is_dominant_mesh, parse_obj_inner, TextGroup};
use crate::toolpath::{
    leading_moves, motion_views, scan_ending, scan_toolpath, ToolpathScan,
};
use crate::text::lines;

verus! {

/// What looking for an entry of an archive gives.
#[derive(Clone, Debug, PartialEq, Eq)]
pub enum Packed {
    /// The archive, or an entry met on the way, cannot be read; with the
    /// text of the error.
    Unreadable(String),
    /// No entry has the name that was looked for.
    Missing,
    /// The content of the entry.
    Data(Vec<u8>),
}

/// Where the search for a suffix among the entry names ends.
pub enum Hit {
    /// At the entry with this index, whose name ends with the suffix.
    Found(int),
    /// At the entry with this index, which cannot be opened.
    Broken(int),
    /// After the last entry.
    Missing,
}

/// Where the search for a suffix ends that begins at entry `from`: at the
/// first entry that cannot be opened or whose name ends with the suffix.
pub open spec fn first_hit(names: Seq<Result<Vec<u8>, String>>, suffix: Seq<u8>, from: int) -> Hit
    decreases names.len() - from,
{
    if from < 0 || from >= names.len() {
        Hit::Missing
    } else {
        match names[from] {
            Err(_) => Hit::Broken(from),
            Ok(name) => if ends_with(name@, suffix) {
                Hit::Found(from)
            } else {
                first_hit(names, suffix, from + 1)
            },
        }
    }
}

/// The first entry of the archive whose name ends with the suffix.
pub open spec fn packed_entry(bytes: Seq<u8>, suffix: Seq<u8>) -> Packed {
    match archive_names(bytes) {
        Err(e) => Packed::Unreadable(e),
        Ok(names) => match first_hit(names@, suffix, 0) {
            Hit::Broken(i) => Packed::Unreadable(names@[i]->Err_0),
            Hit::Found(i) => match archive_entry(bytes, i as usize) {
                Err(e) => Packed::Unreadable(e),
                Ok(data) => Packed::Data(data),
            },
            Hit::Missing => Packed::Missing,
        },
    }
}

/// Takes the first entry whose name ends with the suffix out of an archive.
pub fn unpack(bytes: &[u8], suffix: &[u8]) -> (r: Packed)
    ensures
        r == packed_entry(bytes@, suffix@),
{
    let names = match entry_names(bytes) {
        Err(e) => {
            return Packed::Unreadable(e);
        },
        Ok(names) => names,
    };
    let mut i: usize = 0;
    while i < names.len()
        invariant
            i <= names@.len(),
            archive_names(bytes@) == Ok::<Vec<Result<Vec<u8>, String>>, String>(names),
            first_hit(names@, suffix@, 0) == first_hit(names@, suffix@, i as int),
        decreases names.len() - i,
    {
        match &names[i] {
            Err(e) => {
                return Packed::Unreadable(e.clone());
            },
            Ok(name) => {
                if has_suffix(name.as_slice(), suffix) {
                    return match entry_data(bytes, i) {
                        Err(e) => Packed::Unreadable(e),
                        Ok(data) => Packed::Data(data),
                    };
                }
            },
        }
        i += 1;
    }
    Packed::Missing
}

/// The first entry, from entry `from` on, that can be opened and has exactly
/// this name.
pub open spec fn first_named(names: Seq<Result<Vec<u8>, String>>, name: Seq<u8>, from: int) -> Option<
    int,
>
    decreases names.len() - from,
{
    if from < 0 || from >= names.len() {
        None
    } else {
        match names[from] {
            Ok(n) if n@ == name => Some(from),
            _ => first_named(names, name, from + 1),
        }
    }
}

/// The text of the entry with exactly this name, if the archive can be read,
/// has the entry, and the entry is well-formed text.
pub open spec fn config_text(bytes: Seq<u8>, name: Seq<u8>) -> Option<Seq<u8>> {
    match archive_names(bytes) {
        Err(_) => None,
        Ok(names) => match first_named(names@, name, 0) {
            None => None,
            Some(i) => match archive_entry(bytes, i as usize) {
                Ok(data) => if valid_utf8(data@) {
                    Some(data@)
                } else {
                    None
                },
                Err(_) => None,
            },
        },
    }
}

/// Reads the text of the entry with exactly this name. Whatever goes wrong
/// on the way, there is no text then, and no error.
pub fn read_config(bytes: &[u8], name: &[u8]) -> (r: Option<Vec<u8>>)
    ensures
        r is Some <==> config_text(bytes@, name@) is Some,
        r matches Some(text) ==> config_text(bytes@, name@) == Some(text@),
{
    let names = match entry_names(bytes) {
        Err(_) => {
            return None;
        },
        Ok(names) => names,
    };
    let mut i: usize = 0;
    while i < names.len()
        invariant
            i <= names@.len(),
            archive_names(bytes@) == Ok::<Vec<Result<Vec<u8>, String>>, String>(names),
            first_named(names@, name@, 0) == first_named(names@, name@, i as int),
        decreases names.len() - i,
    {
        match &names[i] {
            Ok(n) => {
                let same = n.len() == name.len() && stands_at(n.as_slice(), 0, name);
                proof {
                    if same {
                        assert(n@.subrange(0, name@.len() as int) =~= n@);
                    } else if n@ == name@ {
                        assert(n@.subrange(0, name@.len() as int) =~= n@);
                    }
                }
                if same {
                    return match entry_data(bytes, i) {
                        Ok(data) => {
                            if as_text(data.as_slice()).is_some() {
                                Some(data)
                            } else {
                                None
                            }
                        },
                        Err(_) => None,
                    };
                }
            },
            Err(_) => {},
        }
        i += 1;
    }
    None
}

/// The table of extruder colours that the package records: that of its
/// slicer configuration, or no colours where it has none.
pub open spec fn recorded_table(bytes: Seq<u8>) -> Seq<Rgb> {
    match config_text(bytes, "Metadata/Slic3r_PE.config".spec_bytes()) {
        Some(text) => extruder_table(text),
        None => Seq::empty(),
    }
}

/// The volume ranges that the package records: those of its slicer model
/// configuration, coloured by its table, or none where it has none.
pub open spec fn recorded_volumes(bytes: Seq<u8>) -> Seq<VolumeRange> {
    match config_text(bytes, "Metadata/Slic3r_PE_model.config".spec_bytes()) {
        Some(text) => volume_stream(text, recorded_table(bytes)),
        None => Seq::empty(),
    }
}

/// Reads the table of extruder colours that a package records.
pub fn extract_extruder_colors_from_3mf(bytes: &[u8]) -> (table: Vec<Rgb>)
    ensures
        table@ == recorded_table(bytes@),
{
    match read_config(bytes, "Metadata/Slic3r_PE.config".as_bytes()) {
        Some(text) => parse_extruder_colors(text.as_slice()),
        None => Vec::new(),
    }
}

/// Reads the volume ranges that a package records, coloured by the table.
pub fn extract_object_volumes_from_3mf(bytes: &[u8], table: &[Rgb]) -> (ranges: Vec<VolumeRange>)
    ensures
        ranges@ == match config_text(bytes@, "Metadata/Slic3r_PE_model.config".spec_bytes()) {
            Some(text) => volume_stream(text, table@),
            None => Seq::empty(),
        },
{
    match read_config(bytes, "Metadata/Slic3r_PE_model.config".as_bytes()) {
        Some(text) => parse_slic3r_volumes(text.as_slice(), table),
        None => Vec::new(),
    }
}

/// The objects of all the models of a package, model after model.
pub open spec fn package_objects(models: Seq<threemf::model::Model>) -> Seq<ModelObject>
    decreases models.len(),
{
    if models.len() == 0 {
        Seq::empty()
    } else {
        package_objects(models.drop_last()) + model_objects(models.last())@
    }
}

/// The build items of all the models of a package, model after model.
pub open spec fn package_items(models: Seq<threemf::model::Model>) -> Seq<BuildItem>
    decreases models.len(),
{
    if models.len() == 0 {
        Seq::empty()
    } else {
        package_items(models.drop_last()) + model_items(models.last())@
    }
}

/// Whether `r` is the scene of a package: the error of its decoder as a
/// `ParseError`, or what assembling its objects and build items gives, split
/// by the volumes it records.
pub open spec fn is_package_scene(bytes: Seq<u8>, r: Result<ParseResult, ParseError>) -> bool {
    match package_models(bytes) {
        Err(e) => r == Err::<ParseResult, ParseError>(ParseError::ParseError(e)),
        Ok(models) => is_assembled(
            package_objects(models@),
            package_items(models@),
            recorded_volumes(bytes),
            r,
        ),
    }
}

/// Reads a package: decodes its model graph, recovers the colours that a
/// slicer recorded, and assembles the placed parts.
pub fn parse_3mf(bytes: &[u8]) -> (r: Result<ParseResult, ParseError>)
    ensures
        is_package_scene(bytes@, r),
{
    let models = match read_models(bytes) {
        Err(e) => {
            return Err(ParseError::ParseError(e));
        },
        Ok(models) => models,
    };
    let table = extract_extruder_colors_from_3mf(bytes);
    let ranges = extract_object_volumes_from_3mf(bytes, table.as_slice());
    let mut objects: Vec<ModelObject> = Vec::new();
    let mut items: Vec<BuildItem> = Vec::new();
    let mut k: usize = 0;
    assert(models@.take(0) =~= Seq::empty());
    while k < models.len()
        invariant
            k <= models@.len(),
            objects@ == package_objects(models@.take(k as int)),
            items@ == package_items(models@.take(k as int)),
        decreases models.len() - k,
    {
        assert(models@.take(k + 1).drop_last() =~= models@.take(k as int));
        assert(models@.take(k + 1).last() == models@[k as int]);
        let mut more_objects = objects_of(&models[k]);
        let mut more_items = items_of(&models[k]);
        objects.append(&mut more_objects);
        items.append(&mut more_items);
        k += 1;
    }
    assert(models@.take(k as int) =~= models@);
    let graph = ModelGraph { objects, items };
    graph.assemble(&ranges)
}

/// Whether `r` is the mesh of a triangle soup: the error of its decoder as a
/// `ReadError`, or what the decoded soup gives.
pub open spec fn is_stl_mesh(bytes: Seq<u8>, r: Result<MeshView, ParseError>) -> bool {
    match stl_model(bytes) {
        Err(e) => r == Err::<MeshView, ParseError>(ParseError::ReadError(e)),
        Ok(soup) => is_soup_mesh(soup, r),
    }
}

/// Reads a triangle soup, binary or text.
pub fn parse_stl(bytes: &[u8]) -> (r: Result<Mesh, ParseError>)
    ensures
        is_stl_mesh(bytes@, mesh_outcome(r)),
{
    match read_stl(bytes) {
        Err(e) => Err(ParseError::ReadError(e)),
        Ok(soup) => parse_stl_inner(&soup),
    }
}

/// The group that an object of the text format stands for.
pub open spec fn group_of(object: wavefront_obj::obj::Object) -> TextGroup {
    TextGroup { vertices: object_vertices(object), geometry: object_geometry(object) }
}

/// The groups that the objects of a file stand for.
pub open spec fn groups_of(objects: Seq<wavefront_obj::obj::Object>) -> Seq<TextGroup> {
    Seq::new(objects.len(), |i: int| group_of(objects[i]))
}

/// Whether `r` is the mesh of a grouped-geometry text: a `ParseError` where
/// the bytes are no text, where the decoder cannot take the text or refuses
/// it, or what the groups of the text give.
pub open spec fn is_obj_mesh(bytes: Seq<u8>, r: Result<MeshView, ParseError>) -> bool {
    if !valid_utf8(bytes) || !obj_readable(bytes) {
        r matches Err(ParseError::ParseError(_))
    } else {
        match obj_objects(bytes) {
            Err(e) => r == Err::<MeshView, ParseError>(ParseError::ParseError(e)),
            Ok(objects) => is_dominant_mesh(groups_of(objects@), r),
        }
    }
}

/// Tells whether the decoder of the grouped-geometry text format can take
/// the text.
pub fn can_read_obj(text: &[u8]) -> (r: bool)
    ensures
        r == obj_readable(text@),
{
    if text.len() > usize::MAX / 4 {
        return false;
    }
    let limit: usize = if usize::MAX > 0xffff_ffff {
        18
    } else {
        9
    };
    let mut p: usize = 0;
    while p < text.len()
        invariant
            p <= text@.len() <= usize::MAX / 4,
            limit == index_digits(),
            forall|q: int|
                0 <= q < p ==> !(text@[q] == 0x2d && begins_index(text@, q) && #[trigger] run_end(
                    text@,
                    q + 1,
                    ByteClass::Digit,
                ) - (q + 1) > index_digits()),
        decreases text.len() - p,
    {
        let begins = p == 0 || text[p - 1] == 0x20 || text[p - 1] == 0x09 || text[p - 1] == 0x0d
            || text[p - 1] == 0x0a || text[p - 1] == 0x2f;
        if text[p] == 0x2d && begins {
            let end = scan_run(text, p + 1, ByteClass::Digit);
            if end - (p + 1) > limit {
                return false;
            }
        }
        p += 1;
    }
    true
}

/// Reads a grouped-geometry text.
pub fn parse_obj(bytes: &[u8]) -> (r: Result<Mesh, ParseError>)
    ensures
        is_obj_mesh(bytes@, mesh_outcome(r)),
{
    let text = match as_text(bytes) {
        None => {
            return Err(
                ParseError::ParseError(String::from_str("The model is not well-formed text")),
            );
        },
        Some(text) => text,
    };
    if !can_read_obj(bytes) {
        return Err(ParseError::ParseError(String::from_str("A vertex index is out of range")));
    }
    let objects = match read_obj(text) {
        Err(e) => {
            return Err(ParseError::ParseError(e));
        },
        Ok(objects) => objects,
    };
    let mut groups: Vec<TextGroup> = Vec::new();
    let mut k: usize = 0;
    while k < objects.len()
        invariant
            k <= objects@.len(),
            groups@ == groups_of(objects@.take(k as int)),
        decreases objects.len() - k,
    {
        let ghost before = groups@;
        groups.push(
            TextGroup { vertices: vertices_of(&objects[k]), geometry: geometry_of(&objects[k]) },
        );
        assert(groups@ =~= groups_of(objects@.take(k + 1)));
        k += 1;
    }
    assert(objects@.take(k as int) =~= objects@);
    parse_obj_inner(&groups)
}

/// Whether `scan` is the scan of a toolpath text.
pub open spec fn is_scan(text: Seq<u8>, scan: ToolpathScan) -> bool {
    &&& motion_views(scan.moves@) == leading_moves(lines(text))
    &&& scan.ending == scan_ending(lines(text))
}

/// Scans a toolpath. The caller reads the numbers of the scanned lines,
/// replays them, and joins the tubes of the path.
pub fn parse_gcode(bytes: &[u8]) -> (scan: ToolpathScan)
    ensures
        is_scan(bytes@, scan),
{
    scan_toolpath(bytes)
}

/// Whether `r` is the mesh of a triangle soup in an archive.
pub open spec fn is_packed_stl(bytes: Seq<u8>, r: Result<MeshView, ParseError>) -> bool {
    match packed_entry(bytes, ".stl".spec_bytes()) {
        Packed::Unreadable(e) => r == Err::<MeshView, ParseError>(ParseError::ReadError(e)),
        Packed::Missing => r matches Err(ParseError::MeshConvertError(_)),
        Packed::Data(data) => is_stl_mesh(data@, r),
    }
}

/// Reads the first triangle soup of an archive.
pub fn parse_stl_zip(bytes: &[u8]) -> (r: Result<Mesh, ParseError>)
    ensures
        is_packed_stl(bytes@, mesh_outcome(r)),
{
    match unpack(bytes, ".stl".as_bytes()) {
        Packed::Unreadable(e) => Err(ParseError::ReadError(e)),
        Packed::Missing => Err(
            ParseError::MeshConvertError(String::from_str("Failed to find .stl model in zip")),
        ),
        Packed::Data(data) => parse_stl(data.as_slice()),
    }
}

/// Whether `r` is the mesh of a grouped-geometry text in an archive.
pub open spec fn is_packed_obj(bytes: Seq<u8>, r: Result<MeshView, ParseError>) -> bool {
    match packed_entry(bytes, ".obj".spec_bytes()) {
        Packed::Unreadable(e) => r == Err::<MeshView, ParseError>(ParseError::ReadError(e)),
        Packed::Missing => r matches Err(ParseError::MeshConvertError(_)),
        Packed::Data(data) => is_obj_mesh(data@, r),
    }
}

/// Reads the first grouped-geometry text of an archive.
pub fn parse_obj_zip(bytes: &[u8]) -> (r: Result<Mesh, ParseError>)
    ensures
        is_packed_obj(bytes@, mesh_outcome(r)),
{
    match unpack(bytes, ".obj".as_bytes()) {
        Packed::Unreadable(e) => Err(ParseError::ReadError(e)),
        Packed::Missing => Err(
            ParseError::MeshConvertError(String::from_str("Failed to find .obj model in zip")),
        ),
        Packed::Data(data) => parse_obj(data.as_slice()),
    }
}

/// Whether `r` is the scan of a toolpath in an archive.
pub open spec fn is_packed_scan(bytes: Seq<u8>, r: Result<ToolpathScan, ParseError>) -> bool {
    match packed_entry(bytes, ".gcode".spec_bytes()) {
        Packed::Unreadable(e) => r == Err::<ToolpathScan, ParseError>(ParseError::ReadError(e)),
        Packed::Missing => r matches Err(ParseError::MeshConvertError(_)),
        Packed::Data(data) => r matches Ok(scan) && is_scan(data@, scan),
    }
}

/// Scans the first toolpath of an archive.
pub fn parse_gcode_zip(bytes: &[u8]) -> (r: Result<ToolpathScan, ParseError>)
    ensures
        is_packed_scan(bytes@, r),
{
    match unpack(bytes, ".gcode".as_bytes()) {
        Packed::Unreadable(e) => Err(ParseError::ReadError(e)),
        Packed::Missing => Err(
            ParseError::MeshConvertError(String::from_str("Failed to find .gcode model in zip")),
        ),
        Packed::Data(data) => Ok(parse_gcode(data.as_slice())),
    }
}

/// What a file holds once it is read: the parts of its scene, or, for a
/// toolpath, the scan from which the caller builds the path.
#[derive(Clone, Debug, PartialEq, Eq)]
pub enum Parsed {
    Scene(ParseResult),
    Toolpath(ToolpathScan),
}

/// What the outcome of reading a file holds where the file is a single mesh:
/// the view of the mesh, or the error.
pub open spec fn single_mesh(r: Result<Parsed, ParseError>) -> Option<Result<MeshView, ParseError>> {
    match r {
        Err(e) => Some(Err(e)),
        Ok(Parsed::Scene(scene)) => if scene@.len() == 1 && scene@[0] == PartView::plain(
            scene@[0].mesh,
        ) {
            Some(Ok(scene@[0].mesh))
        } else {
            None
        },
        Ok(Parsed::Toolpath(_)) => None,
    }
}

/// What the outcome of reading a file holds where the file is a scene of
/// parts.
pub open spec fn scene_of(r: Result<Parsed, ParseError>) -> Option<Result<ParseResult, ParseError>> {
    match r {
        Err(e) => Some(Err(e)),
        Ok(Parsed::Scene(scene)) => Some(Ok(scene)),
        Ok(Parsed::Toolpath(_)) => None,
    }
}

/// What the outcome of reading a file holds where the file is a toolpath.
pub open spec fn scan_of(r: Result<Parsed, ParseError>) -> Option<Result<ToolpathScan, ParseError>> {
    match r {
        Err(e) => Some(Err(e)),
        Ok(Parsed::Toolpath(scan)) => Some(Ok(scan)),
        Ok(Parsed::Scene(_)) => None,
    }
}

/// Whether `r` is what reading the file gives: the `ParseError` of an unknown
/// file type where the name selects no format, else the outcome of the
/// reader that the name selects.
pub open spec fn is_file_outcome(path: Seq<u8>, bytes: Seq<u8>, r: Result<Parsed, ParseError>) -> bool {
    match format_of(path) {
        None => r matches Err(ParseError::ParseError(text)) && text@ == "Unknown file type"@,
        Some(SourceFormat::Stl) => single_mesh(r) matches Some(m) && is_stl_mesh(bytes, m),
        Some(SourceFormat::StlZip) => single_mesh(r) matches Some(m) && is_packed_stl(bytes, m),
        Some(SourceFormat::ThreeMf) => scene_of(r) matches Some(s) && is_package_scene(bytes, s),
        Some(SourceFormat::Obj) => single_mesh(r) matches Some(m) && is_obj_mesh(bytes, m),
        Some(SourceFormat::ObjZip) => single_mesh(r) matches Some(m) && is_packed_obj(bytes, m),
        Some(SourceFormat::Gcode) => r matches Ok(Parsed::Toolpath(scan)) && is_scan(bytes, scan),
        Some(SourceFormat::GcodeZip) => scan_of(r) matches Some(s) && is_packed_scan(bytes, s),
    }
}

/// Wraps the mesh of a file as the scene of one part.
fn as_scene(r: Result<Mesh, ParseError>) -> (out: Result<Parsed, ParseError>)
    ensures
        single_mesh(out) == Some(mesh_outcome(r)),
{
    match r {
        Ok(mesh) => Ok(Parsed::Scene(ParseResult::single(mesh))),
        Err(e) => Err(e),
    }
}

/// Reads a file: selects the reader by the name of the file and hands it the
/// bytes of the file.
pub fn parse_file(path: &str, bytes: &[u8]) -> (r: Result<Parsed, ParseError>)
    ensures
        is_file_outcome(path.spec_bytes(), bytes@, r),
{
    match SourceFormat::detect(path) {
        None => Err(ParseError::ParseError(String::from_str("Unknown file type"))),
        Some(SourceFormat::Stl) => as_scene(parse_stl(bytes)),
        Some(SourceFormat::StlZip) => as_scene(parse_stl_zip(bytes)),
        Some(SourceFormat::ThreeMf) => match parse_3mf(bytes) {
            Ok(scene) => Ok(Parsed::Scene(scene)),
            Err(e) => Err(e),
        },
        Some(SourceFormat::Obj) => as_scene(parse_obj(bytes)),
        Some(SourceFormat::ObjZip) => as_scene(parse_obj_zip(bytes)),
        Some(SourceFormat::Gcode) => Ok(Parsed::Toolpath(parse_gcode(bytes))),
        Some(SourceFormat::GcodeZip) => match parse_gcode_zip(bytes) {
            Ok(scan) => Ok(Parsed::Toolpath(scan)),
            Err(e) => Err(e),
        },
    }
}

} // verus!
