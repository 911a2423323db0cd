use mesh_thumbnail::error::ParseError;
use mesh_thumbnail::format::{Axis, Format, FormatFamily, Reorientation, SourceFormat};
use mesh_thumbnail::parse::parse_file;

#[test]
fn detects_each_suffix() {
    assert_eq!(SourceFormat::detect("a.stl"), Some(SourceFormat::Stl));
    assert_eq!(SourceFormat::detect("a.stl.zip"), Some(SourceFormat::StlZip));
    assert_eq!(SourceFormat::detect("a.3mf"), Some(SourceFormat::ThreeMf));
    assert_eq!(SourceFormat::detect("a.obj"), Some(SourceFormat::Obj));
    assert_eq!(SourceFormat::detect("a.obj.zip"), Some(SourceFormat::ObjZip));
    assert_eq!(SourceFormat::detect("a.gcode"), Some(SourceFormat::Gcode));
    assert_eq!(SourceFormat::detect("a.gcode.zip"), Some(SourceFormat::GcodeZip));
}

#[test]
fn suffix_match_is_exact_and_case_sensitive() {
    assert_eq!(SourceFormat::detect("a.STL"), None);
    assert_eq!(SourceFormat::detect("a.Stl"), None);
    assert_eq!(SourceFormat::detect("a.stl "), None);
    assert_eq!(SourceFormat::detect("astl"), None);
    assert_eq!(SourceFormat::detect(""), None);
    assert_eq!(SourceFormat::detect(".stl"), Some(SourceFormat::Stl));
    assert_eq!(SourceFormat::detect("/tmp/dir.obj/model.3mf"), Some(SourceFormat::ThreeMf));
    assert_eq!(SourceFormat::detect("a.zip"), None);
    assert_eq!(SourceFormat::detect("a.3mf.zip"), None);
    assert_eq!(SourceFormat::detect("mod\u{e9}le.gcode"), Some(SourceFormat::Gcode));
}

#[test]
fn unsupported_suffix_is_a_parse_error() {
    let r = parse_file("model.xyz", &[1, 2, 3]);
    match r {
        Err(ParseError::ParseError(text)) => assert_eq!(text, "Unknown file type"),
        _ => panic!("expected a parse error"),
    }
    let r = parse_file("model", &[]);
    assert!(matches!(r, Err(ParseError::ParseError(_))));
}

#[test]
fn families_and_their_rotations() {
    assert_eq!(SourceFormat::Stl.family(), FormatFamily::TriangleMesh);
    assert_eq!(SourceFormat::StlZip.family(), FormatFamily::TriangleMesh);
    assert_eq!(SourceFormat::ThreeMf.family(), FormatFamily::TriangleMesh);
    assert_eq!(SourceFormat::Obj.family(), FormatFamily::TriangleMesh);
    assert_eq!(SourceFormat::ObjZip.family(), FormatFamily::TriangleMesh);
    assert_eq!(SourceFormat::Gcode.family(), FormatFamily::Toolpath);
    assert_eq!(SourceFormat::GcodeZip.family(), FormatFamily::Toolpath);
    assert_eq!(
        FormatFamily::TriangleMesh.reorientation(),
        Reorientation { axis: Axis::X, degrees: 270 }
    );
    assert_eq!(
        FormatFamily::Toolpath.reorientation(),
        Reorientation { axis: Axis::Y, degrees: 180 }
    );
}

#[test]
fn encoding_names() {
    assert_eq!(Format::Jpg.to_string(), "jpg");
    assert_eq!(Format::Png.to_string(), "png");
}

#[test]
fn error_texts() {
    assert_eq!(
        ParseError::ReadError(String::from("gone")).to_string(),
        "Failed to read file: gone"
    );
    assert_eq!(
        ParseError::ParseError(String::from("odd")).to_string(),
        "Failed to interpret model: odd"
    );
    assert_eq!(
        ParseError::MeshConvertError(String::from("empty")).to_string(),
        "Failed to convert mesh from model: empty"
    );
}

#[test]
fn encodings_by_name() {
    assert_eq!(Format::from_name("png"), Some(Format::Png));
    assert_eq!(Format::from_name("PNG"), Some(Format::Png));
    assert_eq!(Format::from_name("jpg"), Some(Format::Jpg));
    assert_eq!(Format::from_name("Jpeg"), Some(Format::Jpg));
    assert_eq!(Format::from_name("jpe"), None);
    assert_eq!(Format::from_name("png "), None);
    assert_eq!(Format::from_name(""), None);
    assert_eq!(Format::from_name("gif"), None);
    for format in [Format::Png, Format::Jpg] {
        assert_eq!(Format::from_name(&format.to_string()), Some(format));
    }
}
