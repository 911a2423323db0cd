use mesh_thumbnail::mesh::Rgb;
use mesh_thumbnail::packaging::VolumeRange;
use mesh_thumbnail::slicer::{
    feed, lookup_extruder, parse_color_number, parse_extruder_colors, parse_hex_color,
    parse_slic3r_volumes,
    read_events, resolve_color, Event, Scan,
};
use regex::Regex;

const RED: Rgb = Rgb { r: 255, g: 0, b: 0 };
const GREEN: Rgb = Rgb { r: 0, g: 255, b: 0 };
const BLUE: Rgb = Rgb { r: 0, g: 0, b: 255 };

#[test]
fn hex_colors() {
    assert_eq!(parse_hex_color(b"#FF8000"), Some(Rgb { r: 255, g: 128, b: 0 }));
    assert_eq!(parse_hex_color(b"ff8000"), Some(Rgb { r: 255, g: 128, b: 0 }));
    assert_eq!(parse_hex_color(b"##0a0B0c"), Some(Rgb { r: 10, g: 11, b: 12 }));
    assert_eq!(parse_hex_color(b"000000"), Some(Rgb { r: 0, g: 0, b: 0 }));
    assert_eq!(parse_hex_color(b"DDDDDD"), Some(Rgb { r: 221, g: 221, b: 221 }));
}

#[test]
fn colors_written_as_numbers() {
    let cases: [&str; 14] = [
        "DDDDDD", "dddddd", "FF8000", "0", "F", "FFF", "+ff", "00000000000000ff", "FFFFFFFF",
        "12345678", "100000000", "", "+", "#DDDDDD",
    ];
    for text in cases {
        let expected = u32::from_str_radix(text, 16).ok().map(|c| Rgb {
            r: (c >> 16 & 0xFF) as u8,
            g: (c >> 8 & 0xFF) as u8,
            b: (c & 0xFF) as u8,
        });
        assert_eq!(parse_color_number(text.as_bytes()), expected, "{:?}", text);
    }
    assert_eq!(parse_color_number(b"DDDDDD"), Some(Rgb { r: 221, g: 221, b: 221 }));
    assert_eq!(parse_color_number(b"FFF"), Some(Rgb { r: 0, g: 15, b: 255 }));
    assert_eq!(parse_color_number(b"12345678"), Some(Rgb { r: 0x34, g: 0x56, b: 0x78 }));
    assert_eq!(parse_color_number(b"-1"), None);
    assert_eq!(parse_color_number(b"1 "), None);
    assert_eq!(parse_color_number(b"0x10"), None);
}

#[test]
fn malformed_hex_colors() {
    assert_eq!(parse_hex_color(b""), None);
    assert_eq!(parse_hex_color(b"#"), None);
    assert_eq!(parse_hex_color(b"#FFF"), None);
    assert_eq!(parse_hex_color(b"#FF80000"), None);
    assert_eq!(parse_hex_color(b"#GG8000"), None);
    assert_eq!(parse_hex_color(b"#FF80 0"), None);
    assert_eq!(parse_hex_color(b"FF8000#"), None);
    assert_eq!(parse_hex_color(b"+F8000"), None);
    assert_eq!(parse_hex_color("a\u{e9}123".as_bytes()), None);
}

#[test]
fn extruder_table_from_configuration() {
    let text = b"; bed_shape = 0x0\n; extruder_colour = #FF0000;#00FF00; #0000FF \n; other = 1\n";
    assert_eq!(parse_extruder_colors(text), vec![RED, GREEN, BLUE]);
}

#[test]
fn extruder_table_skips_malformed_entries() {
    let text = b"; extruder_colour = #FF0000;;nope;#0000FF;\"\"\r\n";
    assert_eq!(parse_extruder_colors(text), vec![RED, BLUE]);
}

#[test]
fn extruder_table_takes_the_first_line_only() {
    let text = b"; extruder_colour = #00FF00\n; extruder_colour = #FF0000\n";
    assert_eq!(parse_extruder_colors(text), vec![GREEN]);
}

#[test]
fn extruder_table_stops_at_a_second_equals_sign() {
    let text = b"; extruder_colour = #00FF00;#FF0000 = #0000FF";
    assert_eq!(parse_extruder_colors(text), vec![GREEN, RED]);
}

#[test]
fn extruder_table_is_empty_without_the_line() {
    assert_eq!(parse_extruder_colors(b""), Vec::<Rgb>::new());
    assert_eq!(parse_extruder_colors(b"; extruder_colour\n"), Vec::<Rgb>::new());
    assert_eq!(parse_extruder_colors(b" ; extruder_colour = #FF0000\n"), Vec::<Rgb>::new());
    assert_eq!(parse_extruder_colors(b"; extruder_colour ="), Vec::<Rgb>::new());
}

#[test]
fn extruders_count_from_one() {
    let table = [RED, GREEN];
    assert_eq!(lookup_extruder(&table, Some(1)), Some(RED));
    assert_eq!(lookup_extruder(&table, Some(2)), Some(GREEN));
    assert_eq!(lookup_extruder(&table, Some(0)), None);
    assert_eq!(lookup_extruder(&table, Some(3)), None);
    assert_eq!(lookup_extruder(&table, None), None);
    assert_eq!(lookup_extruder(&[], Some(1)), None);
}

#[test]
fn volume_extruder_wins_over_object_extruder() {
    let table = [RED, GREEN, BLUE];
    assert_eq!(resolve_color(None, Some(2), Some(1), &table), Some(GREEN));
    assert_eq!(resolve_color(None, Some(3), Some(1), &table), Some(BLUE));
}

#[test]
fn color_priority() {
    let table = [RED, GREEN];
    let inline = Rgb { r: 1, g: 2, b: 3 };
    assert_eq!(resolve_color(Some(inline), Some(1), Some(2), &table), Some(inline));
    assert_eq!(resolve_color(None, None, Some(2), &table), Some(GREEN));
    assert_eq!(resolve_color(None, Some(0), Some(2), &table), Some(GREEN));
    assert_eq!(resolve_color(None, Some(9), Some(1), &table), Some(RED));
    assert_eq!(resolve_color(None, Some(9), Some(9), &table), None);
    assert_eq!(resolve_color(None, None, None, &table), None);
    assert_eq!(resolve_color(None, Some(1), Some(1), &[]), None);
}

fn in_volume(first: Option<usize>, last: Option<usize>) -> Scan {
    Scan::InVolume { id: 4, object_extruder: Some(2), first, last, extruder: None, color: None }
}

#[test]
fn transition_object_start() {
    let table = [RED, GREEN];
    assert_eq!(
        Scan::NoObject.advance(Event::Object(Some(4)), &table),
        (Scan::InObject { id: 4, extruder: None }, None)
    );
    assert_eq!(
        Scan::InObject { id: 1, extruder: Some(1) }.advance(Event::Object(Some(4)), &table),
        (Scan::InObject { id: 4, extruder: None }, None)
    );
    assert_eq!(
        Scan::InObject { id: 1, extruder: Some(1) }.advance(Event::Object(None), &table),
        (Scan::NoObject, None)
    );
    assert_eq!(
        in_volume(Some(0), Some(9)).advance(Event::Object(Some(5)), &table),
        (
            Scan::InObject { id: 5, extruder: None },
            Some(VolumeRange { object_id: 4, first: 0, last: 9, color: Some(GREEN) })
        )
    );
}

#[test]
fn transition_object_extruder() {
    let table = [RED];
    assert_eq!(
        Scan::InObject { id: 4, extruder: None }.advance(Event::ObjectExtruder(Some(2)), &table),
        (Scan::InObject { id: 4, extruder: Some(2) }, None)
    );
    assert_eq!(
        Scan::NoObject.advance(Event::ObjectExtruder(Some(2)), &table),
        (Scan::NoObject, None)
    );
    assert_eq!(
        in_volume(Some(0), Some(1)).advance(Event::ObjectExtruder(Some(1)), &table),
        (in_volume(Some(0), Some(1)), None)
    );
}

#[test]
fn transition_volume_start() {
    let table = [RED, GREEN];
    assert_eq!(
        Scan::InObject { id: 4, extruder: Some(2) }.advance(Event::Volume(Some(0), Some(5)), &table),
        (in_volume(Some(0), Some(5)), None)
    );
    assert_eq!(
        Scan::NoObject.advance(Event::Volume(Some(0), Some(5)), &table),
        (Scan::NoObject, None)
    );
    assert_eq!(
        in_volume(Some(0), Some(5)).advance(Event::Volume(Some(6), Some(7)), &table),
        (
            in_volume(Some(6), Some(7)),
            Some(VolumeRange { object_id: 4, first: 0, last: 5, color: Some(GREEN) })
        )
    );
}

#[test]
fn transition_volume_details() {
    let table = [RED];
    let c = Rgb { r: 9, g: 8, b: 7 };
    assert_eq!(
        in_volume(Some(0), Some(5)).advance(Event::VolumeExtruder(Some(1)), &table),
        (
            Scan::InVolume {
                id: 4,
                object_extruder: Some(2),
                first: Some(0),
                last: Some(5),
                extruder: Some(1),
                color: None
            },
            None
        )
    );
    assert_eq!(
        in_volume(Some(0), Some(5)).advance(Event::Color(c), &table),
        (
            Scan::InVolume {
                id: 4,
                object_extruder: Some(2),
                first: Some(0),
                last: Some(5),
                extruder: None,
                color: Some(c)
            },
            None
        )
    );
    assert_eq!(
        Scan::InObject { id: 4, extruder: None }.advance(Event::Color(c), &table),
        (Scan::InObject { id: 4, extruder: None }, None)
    );
    assert_eq!(
        Scan::InObject { id: 4, extruder: None }.advance(Event::VolumeExtruder(Some(1)), &table),
        (Scan::InObject { id: 4, extruder: None }, None)
    );
}

#[test]
fn transition_volume_end_and_stream_end() {
    let table = [RED, GREEN];
    assert_eq!(
        in_volume(Some(2), Some(2)).advance(Event::VolumeEnd, &table),
        (
            Scan::InObject { id: 4, extruder: Some(2) },
            Some(VolumeRange { object_id: 4, first: 2, last: 2, color: Some(GREEN) })
        )
    );
    assert_eq!(
        Scan::InObject { id: 4, extruder: Some(2) }.advance(Event::VolumeEnd, &table),
        (Scan::InObject { id: 4, extruder: Some(2) }, None)
    );
    assert_eq!(
        in_volume(Some(2), Some(3)).advance(Event::End, &table),
        (
            Scan::NoObject,
            Some(VolumeRange { object_id: 4, first: 2, last: 3, color: Some(GREEN) })
        )
    );
    assert_eq!(Scan::NoObject.advance(Event::End, &table), (Scan::NoObject, None));
}

#[test]
fn volume_without_sound_bounds_closes_without_a_range() {
    let table = [RED];
    assert_eq!(in_volume(None, Some(3)).advance(Event::VolumeEnd, &table).1, None);
    assert_eq!(in_volume(Some(3), None).advance(Event::VolumeEnd, &table).1, None);
    assert_eq!(in_volume(Some(3), Some(2)).advance(Event::VolumeEnd, &table).1, None);
}

#[test]
fn events_of_a_line() {
    assert_eq!(read_events(b" <object id=\"12\" instances_count=\"1\">"), vec![Event::Object(Some(12))]);
    assert_eq!(
        read_events(b"  <metadata type=\"object\" key=\"extruder\" value=\"2\"/>"),
        vec![Event::ObjectExtruder(Some(2))]
    );
    assert_eq!(
        read_events(b"  <volume firstid=\"0\" lastid=\"11\">"),
        vec![Event::Volume(Some(0), Some(11))]
    );
    assert_eq!(
        read_events(b"   <metadata type=\"volume\" key=\"extruder\" value=\"3\"/>"),
        vec![Event::VolumeExtruder(Some(3))]
    );
    assert_eq!(
        read_events(b"   <metadata type=\"volume\" key=\"color\" value=\"#10fF20\"/>"),
        vec![Event::Color(Rgb { r: 16, g: 255, b: 32 })]
    );
    assert_eq!(read_events(b"  </volume>"), vec![Event::VolumeEnd]);
    assert_eq!(read_events(b"<config>"), Vec::<Event>::new());
    assert_eq!(read_events(b""), Vec::<Event>::new());
}

#[test]
fn events_of_one_line_come_in_a_fixed_order() {
    let line = b"</volume><volume firstid=\"1\" lastid=\"2\"><object id=\"3\">";
    assert_eq!(
        read_events(line),
        vec![Event::Object(Some(3)), Event::Volume(Some(1), Some(2)), Event::VolumeEnd]
    );
}

#[test]
fn number_too_large_for_a_word_is_absent() {
    assert_eq!(
        read_events(b"<object id=\"99999999999999999999999999\">"),
        vec![Event::Object(None)]
    );
    assert_eq!(
        read_events(b"<volume firstid=\"5\" lastid=\"99999999999999999999999999\">"),
        vec![Event::Volume(Some(5), None)]
    );
    assert_eq!(
        read_events(b"<object id=\"18446744073709551615\">"),
        vec![Event::Object(Some(18446744073709551615))]
    );
    assert_eq!(read_events(b"<object id=\"0007\">"), vec![Event::Object(Some(7))]);
}

#[test]
fn marker_that_fails_first_may_stand_later() {
    assert_eq!(
        read_events(b"<object id=\"x\"> <object id=\"\"> <object id=\"5\">"),
        vec![Event::Object(Some(5))]
    );
    assert_eq!(read_events(b"<object id=\"5"), Vec::<Event>::new());
    assert_eq!(
        read_events(b"<metadata type=\"volume\" key=\"color\" value=\"#1234567\"/>"),
        Vec::<Event>::new()
    );
    assert_eq!(
        read_events(b"<metadata type=\"volume\" key=\"color\" value=\"#12345\"/>"),
        Vec::<Event>::new()
    );
}

fn number(text: Option<regex::Match>) -> Option<usize> {
    text.and_then(|m| m.as_str().parse().ok())
}

fn events_by_patterns(line: &str) -> Vec<Event> {
    let object = Regex::new(r#"<object id="(\d+)""#).unwrap();
    let volume = Regex::new(r#"<volume firstid="(\d+)" lastid="(\d+)">"#).unwrap();
    let object_extruder =
        Regex::new(r#"<metadata type="object" key="extruder" value="(\d+)""#).unwrap();
    let volume_extruder =
        Regex::new(r#"<metadata type="volume" key="extruder" value="(\d+)""#).unwrap();
    let color =
        Regex::new(r#"<metadata type="volume" key="color" value="(#[0-9A-Fa-f]{6})""#).unwrap();
    let mut out = Vec::new();
    if let Some(c) = object.captures(line) {
        out.push(Event::Object(number(c.get(1))));
    }
    if let Some(c) = object_extruder.captures(line) {
        out.push(Event::ObjectExtruder(number(c.get(1))));
    }
    if let Some(c) = volume.captures(line) {
        out.push(Event::Volume(number(c.get(1)), number(c.get(2))));
    }
    if let Some(c) = volume_extruder.captures(line) {
        out.push(Event::VolumeExtruder(number(c.get(1))));
    }
    if let Some(c) = color.captures(line) {
        out.push(Event::Color(parse_hex_color(c.get(1).unwrap().as_str().as_bytes()).unwrap()));
    }
    if line.contains("</volume>") {
        out.push(Event::VolumeEnd);
    }
    out
}

#[test]
fn markers_agree_with_their_patterns() {
    let lines = [
        "<object id=\"1\" instances_count=\"1\">",
        "<object id=\"\">",
        "<object id=\"a1\"><object id=\"22\">",
        "<<object id=\"3\"",
        "<object id=\"4",
        "  <metadata type=\"object\" key=\"name\" value=\"cube\"/>",
        "  <metadata type=\"object\" key=\"extruder\" value=\"0\"/>",
        "  <metadata type=\"object\" key=\"extruder\" value=\"\"/>",
        "  <volume firstid=\"0\" lastid=\"11\">",
        "  <volume firstid=\"0\"  lastid=\"11\">",
        "  <volume firstid=\"0\" lastid=\"11\" >",
        "  <volume firstid=\"12\" lastid=\"3\"></volume>",
        "   <metadata type=\"volume\" key=\"extruder\" value=\"12\"/>",
        "   <metadata type=\"volume\" key=\"color\" value=\"#A0b1C2\"/>",
        "   <metadata type=\"volume\" key=\"color\" value=\"A0b1C2\"/>",
        "   <metadata type=\"volume\" key=\"color\" value=\"#A0b1C\"/>",
        "   <metadata type=\"volume\" key=\"color\" value=\"#A0b1C2D\"/>",
        "   <metadata type=\"volume\" key=\"color\" value=\"#A0b1Cg\"/> <metadata type=\"volume\" key=\"color\" value=\"#010203\"",
        "  </volume>",
        "</volume",
        "",
        "<volume firstid=\"1\" lastid=\"2\"><metadata type=\"volume\" key=\"extruder\" value=\"1\"/></volume><object id=\"9\">",
    ];
    for line in lines {
        assert_eq!(read_events(line.as_bytes()), events_by_patterns(line), "{}", line);
    }
}

#[test]
fn feed_closes_ranges_in_order() {
    let table = [RED, GREEN];
    let events = vec![
        Event::Object(Some(1)),
        Event::Volume(Some(0), Some(1)),
        Event::VolumeExtruder(Some(1)),
        Event::Volume(Some(2), Some(3)),
        Event::VolumeEnd,
    ];
    let mut ranges = Vec::new();
    let state = feed(Scan::NoObject, &events, &table, &mut ranges);
    assert_eq!(state, Scan::InObject { id: 1, extruder: None });
    assert_eq!(
        ranges,
        vec![
            VolumeRange { object_id: 1, first: 0, last: 1, color: Some(RED) },
            VolumeRange { object_id: 1, first: 2, last: 3, color: None },
        ]
    );
}

const MODEL_CONFIG: &str = r##"<?xml version="1.0" encoding="UTF-8"?>
<config>
 <object id="1" instances_count="1">
  <metadata type="object" key="name" value="cube.stl"/>
  <metadata type="object" key="extruder" value="1"/>
  <volume firstid="0" lastid="11">
   <metadata type="volume" key="name" value="body"/>
   <metadata type="volume" key="extruder" value="2"/>
  </volume>
  <volume firstid="12" lastid="23">
   <metadata type="volume" key="name" value="lid"/>
  </volume>
  <volume firstid="24" lastid="35">
   <metadata type="volume" key="extruder" value="1"/>
   <metadata type="volume" key="color" value="#0000FF"/>
  </volume>
 </object>
 <object id="2" instances_count="1">
  <volume firstid="0" lastid="3">
   <metadata type="volume" key="extruder" value="7"/>
  </volume>
 </object>
</config>
"##;

#[test]
fn volume_stream_of_a_model_configuration() {
    let table = [RED, GREEN];
    let ranges = parse_slic3r_volumes(MODEL_CONFIG.as_bytes(), &table);
    assert_eq!(
        ranges,
        vec![
            VolumeRange { object_id: 1, first: 0, last: 11, color: Some(GREEN) },
            VolumeRange { object_id: 1, first: 12, last: 23, color: Some(RED) },
            VolumeRange { object_id: 1, first: 24, last: 35, color: Some(BLUE) },
            VolumeRange { object_id: 2, first: 0, last: 3, color: None },
        ]
    );
}

#[test]
fn volume_stream_without_a_table_gives_no_colors() {
    let ranges = parse_slic3r_volumes(MODEL_CONFIG.as_bytes(), &[]);
    assert_eq!(ranges.len(), 4);
    assert_eq!(ranges[0].color, None);
    assert_eq!(ranges[1].color, None);
    assert_eq!(ranges[2].color, Some(BLUE));
    assert_eq!(ranges[3].color, None);
}

#[test]
fn open_volume_is_closed_by_what_follows() {
    let table = [RED, GREEN];
    let text = b"<object id=\"1\">\n<volume firstid=\"0\" lastid=\"1\">\n<volume firstid=\"2\" lastid=\"3\">\n<object id=\"2\">\n<volume firstid=\"4\" lastid=\"5\">\n<metadata type=\"volume\" key=\"extruder\" value=\"2\"/>";
    let ranges = parse_slic3r_volumes(text, &table);
    assert_eq!(
        ranges,
        vec![
            VolumeRange { object_id: 1, first: 0, last: 1, color: None },
            VolumeRange { object_id: 1, first: 2, last: 3, color: None },
            VolumeRange { object_id: 2, first: 4, last: 5, color: Some(GREEN) },
        ]
    );
}

#[test]
fn volume_outside_an_object_is_passed_over() {
    let text = b"<volume firstid=\"0\" lastid=\"1\">\n</volume>\n<object id=\"99999999999999999999999\">\n<volume firstid=\"0\" lastid=\"1\">\n</volume>\n";
    assert_eq!(parse_slic3r_volumes(text, &[RED]), Vec::<VolumeRange>::new());
    assert_eq!(parse_slic3r_volumes(b"", &[RED]), Vec::<VolumeRange>::new());
}

#[test]
fn lines_end_with_or_without_carriage_return() {
    let unix = b"<object id=\"1\">\n<volume firstid=\"0\" lastid=\"1\">\n</volume>\n";
    let dos = b"<object id=\"1\">\r\n<volume firstid=\"0\" lastid=\"1\">\r\n</volume>\r\n";
    let expected = vec![VolumeRange { object_id: 1, first: 0, last: 1, color: None }];
    assert_eq!(parse_slic3r_volumes(unix, &[]), expected);
    assert_eq!(parse_slic3r_volumes(dos, &[]), expected);
}
