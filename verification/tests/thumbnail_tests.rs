use std::io::{Cursor, Write};

use base64::Engine;
use mesh_thumbnail::parse::Packed;
use mesh_thumbnail::thumbnail::{
    extract_image_from_3mf, extract_image_from_gcode, gather_pictures, largest_picture, Picture,
};

fn encoded(data: &[u8]) -> String {
    base64::prelude::BASE64_STANDARD.encode(data)
}

fn section(width: u32, height: u32, data: &[u8]) -> String {
    let text = encoded(data);
    let mut out = format!("; thumbnail begin {}x{} {}\n", width, height, text.len());
    for chunk in text.as_bytes().chunks(8) {
        out.push_str("; ");
        out.push_str(std::str::from_utf8(chunk).unwrap());
        out.push('\n');
    }
    out.push_str("; thumbnail end\n");
    out
}

#[test]
fn pictures_of_a_toolpath() {
    let text = format!(
        "; generated\n\n{};\n{}G1 X1 Y1\n",
        section(16, 16, b"small image bytes"),
        section(220, 124, b"the large image, somewhat longer")
    );
    let pictures = gather_pictures(text.as_bytes());
    assert_eq!(
        pictures,
        vec![
            Picture { width: 16, height: 16, data: b"small image bytes".to_vec() },
            Picture { width: 220, height: 124, data: b"the large image, somewhat longer".to_vec() },
        ]
    );
    assert_eq!(largest_picture(&pictures), Some(1));
    assert_eq!(extract_image_from_gcode(text.as_bytes()), Some(pictures[1].clone()));
}

#[test]
fn first_of_the_largest_pictures_is_taken() {
    let pictures = vec![
        Picture { width: 4, height: 4, data: vec![1] },
        Picture { width: 8, height: 8, data: vec![2] },
        Picture { width: 16, height: 4, data: vec![3] },
        Picture { width: 2, height: 2, data: vec![4] },
    ];
    assert_eq!(largest_picture(&pictures), Some(1));
    assert_eq!(largest_picture(&vec![]), None);
    let wide = vec![
        Picture { width: 65536, height: 65536, data: vec![] },
        Picture { width: u32::MAX, height: u32::MAX, data: vec![] },
        Picture { width: 1, height: 1, data: vec![] },
    ];
    assert_eq!(largest_picture(&wide), Some(1));
}

#[test]
fn toolpath_without_pictures() {
    assert_eq!(extract_image_from_gcode(b""), None);
    assert_eq!(extract_image_from_gcode(b"G1 X1 Y1\n; thumbnail\n"), None);
    assert_eq!(gather_pictures(b"; thumbnail begin 16x16 4\n; AAAA\n"), vec![]);
}

#[test]
fn pictures_after_the_start_of_the_commands_are_not_taken() {
    let text = format!(
        "{}; EXECUTABLE_BLOCK_START\n{}",
        section(8, 8, b"before"),
        section(64, 64, b"after")
    );
    let pictures = gather_pictures(text.as_bytes());
    assert_eq!(pictures, vec![Picture { width: 8, height: 8, data: b"before".to_vec() }]);
}

#[test]
fn header_with_an_odd_size() {
    // Without a fourth field the header changes nothing.
    assert_eq!(gather_pictures(b"; thumbnail begin\n; AAAA\n; thumbnail end\n"), vec![
        Picture { width: 0, height: 0, data: vec![] }
    ]);
    // A size that does not read is zero, and no picture is open.
    let text = b"; thumbnail begin 16xx 8\n; AAAA\n; thumbnail end\n";
    assert_eq!(gather_pictures(text), vec![Picture { width: 16, height: 0, data: vec![] }]);
    let text = b"; thumbnail begin +16x+8x9 8\n; AAAA\n; thumbnail end\n";
    assert_eq!(gather_pictures(text), vec![Picture { width: 16, height: 8, data: vec![0, 0, 0] }]);
    let text = b"; thumbnail begin 99999999999x8 8\n; AAAA\n; thumbnail end\n";
    assert_eq!(gather_pictures(text), vec![Picture { width: 0, height: 8, data: vec![] }]);
    let text = b"; thumbnail begin  16x8 8\n; AAAA\n; thumbnail end\n";
    assert_eq!(gather_pictures(text), vec![Picture { width: 0, height: 0, data: vec![] }]);
}

#[test]
fn text_that_does_not_decode_gives_no_picture() {
    let text = b"; thumbnail begin 16x8 8\n; A?AA\n; thumbnail end\n";
    assert_eq!(gather_pictures(text), vec![]);
    let text = b"; thumbnail begin 16x8 8\n; AAA\n; thumbnail end\n";
    assert_eq!(gather_pictures(text), vec![]);
}

#[test]
fn short_lines_inside_a_picture_hold_nothing() {
    let text = b"; thumbnail begin 16x8 8\n;\n\n; AAAA\n;   AAAA  \n; thumbnail end\n";
    assert_eq!(gather_pictures(text), vec![Picture { width: 16, height: 8, data: vec![0; 6] }]);
}

#[test]
fn gathering_ends_at_text_that_does_not_decode() {
    let mut text = section(8, 8, b"one").into_bytes();
    text.extend_from_slice(b"\xff\n");
    text.extend_from_slice(section(64, 64, b"two").as_bytes());
    assert_eq!(gather_pictures(&text), vec![Picture { width: 8, height: 8, data: b"one".to_vec() }]);
}

fn archive(entries: &[(&str, &[u8])]) -> Vec<u8> {
    let mut writer = zip::ZipWriter::new(Cursor::new(Vec::new()));
    for (name, data) in entries {
        writer.start_file(*name, zip::write::SimpleFileOptions::default()).unwrap();
        writer.write_all(data).unwrap();
    }
    writer.finish().unwrap().into_inner()
}

#[test]
fn picture_of_a_package() {
    let bytes = archive(&[
        ("Metadata/thumbnail_small.png", b"small"),
        ("Metadata/thumbnail_middle.png", b"middle"),
        ("3D/3dmodel.model", b"<model/>"),
    ]);
    assert_eq!(extract_image_from_3mf(&bytes), Packed::Data(b"middle".to_vec()));
    let none = archive(&[("Metadata/thumbnail.png", b"other")]);
    assert_eq!(extract_image_from_3mf(&none), Packed::Missing);
    assert!(matches!(extract_image_from_3mf(b"junk"), Packed::Unreadable(_)));
}
