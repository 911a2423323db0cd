use std::io::{Cursor, Read, Write};

use mesh_thumbnail::error::ParseError;
use mesh_thumbnail::mesh::{Mesh, Placement, Point32, Point64, Positions, Rgb};
use mesh_thumbnail::parse::{
    extract_extruder_colors_from_3mf, extract_object_volumes_from_3mf, parse_3mf, parse_file,
    parse_gcode, parse_gcode_zip, parse_obj, parse_obj_zip, parse_stl, parse_stl_zip, read_config,
    unpack, Packed, Parsed,
};
use mesh_thumbnail::toolpath::Ending;

fn p32(x: f32, y: f32, z: f32) -> Point32 {
    Point32 { x: x.to_bits(), y: y.to_bits(), z: z.to_bits() }
}

fn p64(x: f64, y: f64, z: f64) -> Point64 {
    Point64 { x: x.to_bits(), y: y.to_bits(), z: z.to_bits() }
}

const ASCII_STL: &str = "solid two
facet normal 0 0 1
  outer loop
    vertex 0 0 0
    vertex 1 0 0
    vertex 0 1 0
  endloop
endfacet
facet normal 0 0 1
  outer loop
    vertex 1 0 0
    vertex 1 1 0.5
    vertex 0 1 0
  endloop
endfacet
endsolid two
";

fn binary_stl(triangles: &[[[f32; 3]; 3]]) -> Vec<u8> {
    let mut out = vec![0u8; 80];
    out.extend_from_slice(&(triangles.len() as u32).to_le_bytes());
    for t in triangles {
        for _ in 0..3 {
            out.extend_from_slice(&0f32.to_le_bytes());
        }
        for v in t {
            for c in v {
                out.extend_from_slice(&c.to_le_bytes());
            }
        }
        out.extend_from_slice(&[0, 0]);
    }
    out
}

fn archive(entries: &[(&str, &[u8])]) -> Vec<u8> {
    let mut writer = zip::ZipWriter::new(Cursor::new(Vec::new()));
    for (name, data) in entries {
        writer.start_file(*name, zip::write::SimpleFileOptions::default()).unwrap();
        writer.write_all(data).unwrap();
    }
    writer.finish().unwrap().into_inner()
}

fn single(parsed: Result<Parsed, ParseError>) -> Mesh {
    match parsed {
        Ok(Parsed::Scene(scene)) => {
            assert_eq!(scene.meshes.len(), 1);
            assert_eq!(scene.meshes[0].transform, Placement::Identity);
            assert_eq!(scene.meshes[0].color, None);
            scene.meshes[0].mesh.clone()
        }
        _ => panic!("expected a scene"),
    }
}

#[test]
fn text_soup_shares_the_vertices_it_repeats() {
    let mesh = parse_stl(ASCII_STL.as_bytes()).unwrap();
    assert_eq!(
        mesh.positions,
        Positions::Single(vec![
            p32(0.0, 0.0, 0.0),
            p32(1.0, 0.0, 0.0),
            p32(0.0, 1.0, 0.0),
            p32(1.0, 1.0, 0.5),
        ])
    );
    assert_eq!(mesh.indices, vec![0, 1, 2, 1, 3, 2]);
    assert!(mesh.is_wf());
    assert_eq!(single(parse_file("dir/two.stl", ASCII_STL.as_bytes())), mesh);
}

#[test]
fn binary_soup() {
    let bytes = binary_stl(&[
        [[0.0, 0.0, 0.0], [2.0, 0.0, 0.0], [0.0, 2.0, 0.0]],
        [[0.0, 0.0, 0.0], [0.0, 2.0, 0.0], [0.0, 0.0, -2.0]],
    ]);
    let mesh = parse_stl(&bytes).unwrap();
    assert_eq!(
        mesh.positions,
        Positions::Single(vec![
            p32(0.0, 0.0, 0.0),
            p32(2.0, 0.0, 0.0),
            p32(0.0, 2.0, 0.0),
            p32(0.0, 0.0, -2.0),
        ])
    );
    assert_eq!(mesh.indices, vec![0, 1, 2, 0, 2, 3]);
}

#[test]
fn empty_binary_soup_is_an_empty_mesh() {
    let mesh = parse_stl(&binary_stl(&[])).unwrap();
    assert_eq!(mesh.positions, Positions::Single(vec![]));
    assert_eq!(mesh.indices, Vec::<u32>::new());
}

#[test]
fn soup_that_breaks_off_is_a_read_error() {
    let mut bytes = binary_stl(&[[[0.0, 0.0, 0.0], [2.0, 0.0, 0.0], [0.0, 2.0, 0.0]]]);
    bytes.truncate(100);
    assert!(matches!(parse_stl(&bytes), Err(ParseError::ReadError(_))));
    assert!(matches!(parse_stl(b""), Err(ParseError::ReadError(_))));
    assert!(matches!(parse_stl(b"solid x\nfacet\n"), Err(ParseError::ReadError(_))));
    assert!(matches!(parse_file("a.stl", b"solid x\nfacet\n"), Err(ParseError::ReadError(_))));
}

#[test]
fn soup_in_an_archive() {
    let bytes = archive(&[
        ("readme.txt", b"hello"),
        ("models/two.stl", ASCII_STL.as_bytes()),
        ("other.stl", b"not a model"),
    ]);
    let mesh = parse_stl_zip(&bytes).unwrap();
    assert_eq!(mesh.indices, vec![0, 1, 2, 1, 3, 2]);
    assert_eq!(single(parse_file("two.stl.zip", &bytes)), mesh);
}

#[test]
fn archive_without_the_model_is_a_convert_error() {
    let bytes = archive(&[("readme.txt", b"hello"), ("two.STL", ASCII_STL.as_bytes())]);
    assert!(matches!(parse_stl_zip(&bytes), Err(ParseError::MeshConvertError(_))));
    assert!(matches!(parse_obj_zip(&bytes), Err(ParseError::MeshConvertError(_))));
    assert!(matches!(parse_gcode_zip(&bytes), Err(ParseError::MeshConvertError(_))));
    let empty = archive(&[]);
    assert!(matches!(parse_stl_zip(&empty), Err(ParseError::MeshConvertError(_))));
}

#[test]
fn bytes_that_are_no_archive_are_a_read_error() {
    assert!(matches!(parse_stl_zip(b"not an archive"), Err(ParseError::ReadError(_))));
    assert!(matches!(parse_obj_zip(b""), Err(ParseError::ReadError(_))));
    assert!(matches!(parse_gcode_zip(&[0u8; 64]), Err(ParseError::ReadError(_))));
    assert!(matches!(parse_file("a.stl.zip", b"nothing"), Err(ParseError::ReadError(_))));
}

#[test]
fn entries_are_taken_by_the_end_of_their_names() {
    let bytes = archive(&[("a.txt", b"first"), ("dir/b.txt", b"second"), ("c.bin", b"third")]);
    assert_eq!(unpack(&bytes, b".txt"), Packed::Data(b"first".to_vec()));
    assert_eq!(unpack(&bytes, b"b.txt"), Packed::Data(b"second".to_vec()));
    assert_eq!(unpack(&bytes, b".bin"), Packed::Data(b"third".to_vec()));
    assert_eq!(unpack(&bytes, b""), Packed::Data(b"first".to_vec()));
    assert_eq!(unpack(&bytes, b".png"), Packed::Missing);
    assert!(matches!(unpack(b"junk", b".txt"), Packed::Unreadable(_)));
}

#[test]
fn configuration_is_taken_by_its_whole_name() {
    let bytes = archive(&[
        ("x/Metadata/one.config", b"wrong"),
        ("Metadata/one.config", b"right"),
        ("Metadata/bad.config", b"\xff\xfe"),
    ]);
    assert_eq!(read_config(&bytes, b"Metadata/one.config"), Some(b"right".to_vec()));
    assert_eq!(read_config(&bytes, b"one.config"), None);
    assert_eq!(read_config(&bytes, b"Metadata/one.confi"), None);
    assert_eq!(read_config(&bytes, b"Metadata/bad.config"), None);
    assert_eq!(read_config(b"junk", b"Metadata/one.config"), None);
}

const OBJ_TEXT: &str = "o small
v 0 0 0
v 1 0 0
v 0 1 0
f 1 2 3
o large
v 0 0 1
v 1 0 1
v 1 1 1
v 0 1 1
v 5 5 5
f 4 5 6 7
l 4 8
";

#[test]
fn text_mesh_takes_the_larger_object() {
    let mesh = parse_obj(OBJ_TEXT.as_bytes()).unwrap();
    // The quadrilateral is cut into two triangles that share its last corner.
    assert_eq!(mesh.indices.len(), 6);
    assert_eq!(
        mesh.positions,
        Positions::Double(vec![
            p64(0.0, 1.0, 1.0),
            p64(0.0, 0.0, 1.0),
            p64(1.0, 0.0, 1.0),
            p64(1.0, 1.0, 1.0),
        ])
    );
    assert_eq!(mesh.indices, vec![0, 1, 2, 0, 2, 3]);
    assert_eq!(single(parse_file("m.obj", OBJ_TEXT.as_bytes())), mesh);
}

#[test]
fn text_mesh_in_an_archive() {
    let bytes = archive(&[("m.obj", OBJ_TEXT.as_bytes())]);
    let mesh = parse_obj_zip(&bytes).unwrap();
    assert_eq!(mesh, parse_obj(OBJ_TEXT.as_bytes()).unwrap());
    assert_eq!(single(parse_file("m.obj.zip", &bytes)), mesh);
}

#[test]
fn text_mesh_that_does_not_read() {
    assert!(matches!(parse_obj(b"o a\nv 0 0\n"), Err(ParseError::ParseError(_))));
    assert!(matches!(parse_obj(b"o a\nv 0 0 0\nf 1 2 3\n"), Err(ParseError::ParseError(_))));
    assert!(matches!(parse_obj(b"\xff\xfe"), Err(ParseError::ParseError(_))));
    assert!(matches!(parse_obj(b""), Err(ParseError::MeshConvertError(_))));
    assert!(matches!(
        parse_obj(b"o a\nv 0 0 0\nv 1 1 1\nl 1 2\n"),
        Err(ParseError::MeshConvertError(_))
    ));
}

fn cube_mesh() -> threemf::Mesh {
    let corners = [
        (0.0, 0.0, 0.0),
        (10.0, 0.0, 0.0),
        (10.0, 10.0, 0.0),
        (0.0, 10.0, 0.0),
        (0.0, 0.0, 10.5),
        (10.0, 0.0, 10.5),
        (10.0, 10.0, 10.5),
        (0.0, 10.0, 10.5),
    ];
    let faces = [
        (0, 2, 1), (0, 3, 2), (4, 5, 6), (4, 6, 7), (0, 1, 5), (0, 5, 4),
        (1, 2, 6), (1, 6, 5), (2, 3, 7), (2, 7, 6), (3, 0, 4), (3, 4, 7),
    ];
    threemf::Mesh {
        vertices: threemf::model::Vertices {
            vertex: corners.iter().map(|c| threemf::model::Vertex { x: c.0, y: c.1, z: c.2 }).collect(),
        },
        triangles: threemf::model::Triangles {
            triangle: faces.iter().map(|f| threemf::model::Triangle { v1: f.0, v2: f.1, v3: f.2 }).collect(),
        },
    }
}

fn cube_indices() -> Vec<u32> {
    cube_mesh().triangles.triangle.iter().flat_map(|t| [t.v1 as u32, t.v2 as u32, t.v3 as u32]).collect()
}

fn cube_positions() -> Positions {
    Positions::Double(cube_mesh().vertices.vertex.iter().map(|v| p64(v.x, v.y, v.z)).collect())
}

fn package(model: threemf::model::Model, extra: &[(&str, &[u8])]) -> Vec<u8> {
    let mut plain = Cursor::new(Vec::new());
    threemf::write(&mut plain, model).unwrap();
    let mut source = zip::ZipArchive::new(Cursor::new(plain.into_inner())).unwrap();
    let mut entries: Vec<(String, Vec<u8>)> = Vec::new();
    for i in 0..source.len() {
        let mut file = source.by_index(i).unwrap();
        let mut data = Vec::new();
        file.read_to_end(&mut data).unwrap();
        entries.push((file.name().unwrap().to_string(), data));
    }
    for (name, data) in extra {
        entries.push((name.to_string(), data.to_vec()));
    }
    let borrowed: Vec<(&str, &[u8])> = entries.iter().map(|(n, d)| (n.as_str(), d.as_slice())).collect();
    archive(&borrowed)
}

fn placed_cube(transform: Option<[f64; 12]>) -> threemf::model::Model {
    let mut model: threemf::model::Model = cube_mesh().into();
    model.build.item[0].transform = transform;
    model
}

#[test]
fn package_with_one_object() {
    let bytes = package(placed_cube(None), &[]);
    let scene = parse_3mf(&bytes).unwrap();
    assert_eq!(scene.meshes.len(), 1);
    assert_eq!(scene.meshes[0].mesh.positions, cube_positions());
    assert_eq!(scene.meshes[0].mesh.indices, cube_indices());
    assert_eq!(scene.meshes[0].transform, Placement::Identity);
    assert_eq!(scene.meshes[0].color, None);
    match parse_file("cube.3mf", &bytes) {
        Ok(Parsed::Scene(same)) => assert_eq!(same, scene),
        _ => panic!("expected a scene"),
    }
}

#[test]
fn package_with_a_placement() {
    let t = [1.0, 0.0, 0.0, 0.0, 1.0, 0.0, 0.0, 0.0, 1.0, 25.0, -3.5, 0.125];
    let bytes = package(placed_cube(Some(t)), &[]);
    let scene = parse_3mf(&bytes).unwrap();
    assert_eq!(scene.meshes[0].transform, Placement::Affine(t.map(|c| c.to_bits())));
}

const PRINT_CONFIG: &str = "; generated\n; extruder_colour = #FF0000;#00FF00\n; layer_height = 0.2\n";

const VOLUME_CONFIG: &str = "<config>
 <object id=\"1\">
  <metadata type=\"object\" key=\"extruder\" value=\"1\"/>
  <volume firstid=\"0\" lastid=\"3\">
   <metadata type=\"volume\" key=\"extruder\" value=\"2\"/>
  </volume>
  <volume firstid=\"4\" lastid=\"11\">
  </volume>
  <volume firstid=\"12\" lastid=\"12\">
  </volume>
 </object>
</config>
";

#[test]
fn package_with_recorded_volumes() {
    let bytes = package(
        placed_cube(None),
        &[
            ("Metadata/Slic3r_PE.config", PRINT_CONFIG.as_bytes()),
            ("Metadata/Slic3r_PE_model.config", VOLUME_CONFIG.as_bytes()),
        ],
    );
    let table = extract_extruder_colors_from_3mf(&bytes);
    assert_eq!(table, vec![Rgb { r: 255, g: 0, b: 0 }, Rgb { r: 0, g: 255, b: 0 }]);
    let ranges = extract_object_volumes_from_3mf(&bytes, &table);
    assert_eq!(ranges.len(), 3);
    let scene = parse_3mf(&bytes).unwrap();
    // The third volume lies beyond the twelve triangles and is dropped.
    assert_eq!(scene.meshes.len(), 2);
    assert_eq!(scene.meshes[0].color, Some(Rgb { r: 0, g: 255, b: 0 }));
    assert_eq!(scene.meshes[1].color, Some(Rgb { r: 255, g: 0, b: 0 }));
    assert_eq!(scene.meshes[0].mesh.indices, cube_indices()[0..12].to_vec());
    assert_eq!(scene.meshes[1].mesh.indices, cube_indices()[12..36].to_vec());
    assert_eq!(scene.meshes[0].mesh.positions, cube_positions());
    assert_eq!(scene.meshes[1].mesh.positions, cube_positions());
}

#[test]
fn package_with_volumes_but_without_a_table() {
    let bytes = package(
        placed_cube(None),
        &[("Metadata/Slic3r_PE_model.config", VOLUME_CONFIG.as_bytes())],
    );
    assert_eq!(extract_extruder_colors_from_3mf(&bytes), Vec::<Rgb>::new());
    let scene = parse_3mf(&bytes).unwrap();
    assert_eq!(scene.meshes.len(), 2);
    assert_eq!(scene.meshes[0].color, None);
    assert_eq!(scene.meshes[1].color, None);
}

#[test]
fn package_with_a_configuration_that_does_not_decode() {
    let bytes = package(
        placed_cube(None),
        &[
            ("Metadata/Slic3r_PE.config", b"; extruder_colour = #FF0000\n\xff"),
            ("Metadata/Slic3r_PE_model.config", b"\xfe<object id=\"1\">"),
        ],
    );
    assert_eq!(extract_extruder_colors_from_3mf(&bytes), Vec::<Rgb>::new());
    let scene = parse_3mf(&bytes).unwrap();
    assert_eq!(scene.meshes.len(), 1);
    assert_eq!(scene.meshes[0].color, None);
}

#[test]
fn package_with_an_empty_build_list_falls_back() {
    let mut model = placed_cube(None);
    model.build.item.clear();
    let bytes = package(model, &[]);
    let scene = parse_3mf(&bytes).unwrap();
    assert_eq!(scene.meshes.len(), 1);
    assert_eq!(scene.meshes[0].mesh.indices, cube_indices());
    assert_eq!(scene.meshes[0].transform, Placement::Identity);
}

#[test]
fn package_without_a_mesh_is_a_convert_error() {
    let mut model = placed_cube(None);
    model.resources.object[0].mesh = None;
    let bytes = package(model, &[]);
    assert!(matches!(parse_3mf(&bytes), Err(ParseError::MeshConvertError(_))));
    assert!(matches!(parse_file("m.3mf", &bytes), Err(ParseError::MeshConvertError(_))));
}

#[test]
fn package_that_does_not_read_is_a_parse_error() {
    assert!(matches!(parse_3mf(b"nothing"), Err(ParseError::ParseError(_))));
    let broken = archive(&[("3D/3dmodel.model", b"<model><resources>")]);
    assert!(matches!(parse_3mf(&broken), Err(ParseError::ParseError(_))));
}

#[test]
fn toolpath_is_scanned_not_built() {
    let text = b"G0 X0 Y0\nG1 X1 Y0 E1\nG1 X1 Y1 E2\n; done\n";
    let scan = parse_gcode(text);
    assert_eq!(scan.moves.len(), 3);
    assert_eq!(scan.ending, Ending::Stopped);
    match parse_file("print.gcode", text) {
        Ok(Parsed::Toolpath(same)) => assert_eq!(same, scan),
        _ => panic!("expected a toolpath"),
    }
    let bytes = archive(&[("notes.txt", b"-"), ("print.gcode", text)]);
    assert_eq!(parse_gcode_zip(&bytes).unwrap(), scan);
    match parse_file("print.gcode.zip", &bytes) {
        Ok(Parsed::Toolpath(same)) => assert_eq!(same, scan),
        _ => panic!("expected a toolpath"),
    }
}

#[test]
fn minus_signs_inside_words_do_not_matter() {
    let text = b"# made 2024-20240101123456789012345\no part-20240101123456789012345\nv 0 0 1e-0000000000000000000001\nv 1 0 0\nv 0 1 0\nf 1 2 3\n";
    let mesh = parse_obj(text).unwrap();
    assert_eq!(mesh.indices, vec![0, 1, 2]);
    let text = b"o a\nv 0 0 0\nv 1 0 0\nv 0 1 0\nf 1/-9223372036854775808 2 3\n";
    assert!(matches!(parse_obj(text), Err(ParseError::ParseError(_))));
    let text = b"o a\nv 0 0 0\nv 1 0 0\nv 0 1 0\nf 1//-9223372036854775808 2 3\n";
    assert!(matches!(parse_obj(text), Err(ParseError::ParseError(_))));
    let text = b"o a\nv 0 0 0\nv 1 0 0\nv 0 1 0\nf\t-9223372036854775808 2 3\n";
    assert!(matches!(parse_obj(text), Err(ParseError::ParseError(_))));
}

#[test]
fn text_mesh_with_an_index_far_below_zero() {
    let text = b"o a\nv 0 0 0\nv 1 0 0\nv 0 1 0\nf -9223372036854775808 1 2\n";
    assert!(matches!(parse_obj(text), Err(ParseError::ParseError(_))));
    let text = b"o a\nv 0 0 0\nv 1 0 0\nv 0 1 0\nf -1 1 2\n";
    assert!(matches!(parse_obj(text), Err(ParseError::ParseError(_))));
}
