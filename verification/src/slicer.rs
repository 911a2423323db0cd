//! The colours that a slicer recorded beside the model: a table of extruder
//! colours, and the volumes of each object with the colour or the extruder of
//! each.

use vstd::prelude::*;
use crate::mesh::Rgb;
use crate::packaging::VolumeRange;
use crate::text::{
    fields, fields_from, find_marker, first_marker, has_prefix, hex_value, lemma_marker_from,
    lemma_marker_piece, lemma_next_byte_bounds, lemma_run_members, lines, lines_from, next_byte,
    next_line, number, piece_views, read_number, seek_byte, starts_with, trim, trimmed, ByteClass,
    Piece, PieceView,
};
use vstd::slice::slice_subrange;
use vstd::string::StringSliceAdditionalSpecFns;

verus! {

/// How many `#` bytes the text begins with.
pub open spec fn leading_hashes(s: Seq<u8>) -> int
    decreases s.len(),
{
    if s.len() > 0 && s[0] == 0x23 {
        1 + leading_hashes(s.skip(1))
    } else {
        0
    }
}

/// The byte that two hexadecimal digits write.
pub open spec fn hex_pair(high: u8, low: u8) -> Option<u8> {
    match (hex_value(high), hex_value(low)) {
        (Some(h), Some(l)) => Some((16 * h + l) as u8),
        _ => None,
    }
}

/// The colour that six hexadecimal digits write, two for each of red, green
/// and blue.
pub open spec fn hex_triple(digits: Seq<u8>) -> Option<Rgb> {
    if digits.len() != 6 {
        None
    } else {
        match (
            hex_pair(digits[0], digits[1]),
            hex_pair(digits[2], digits[3]),
            hex_pair(digits[4], digits[5]),
        ) {
            (Some(r), Some(g), Some(b)) => Some(Rgb { r, g, b }),
            _ => None,
        }
    }
}

/// The colour that the text writes: any number of `#`, then exactly six
/// hexadecimal digits.
pub open spec fn hex_color(s: Seq<u8>) -> Option<Rgb> {
    hex_triple(s.skip(leading_hashes(s)))
}

/// Reads the value of a hexadecimal digit.
fn read_hex_digit(b: u8) -> (r: Option<u8>)
    ensures
        r == hex_value(b),
{
    if 0x30 <= b && b <= 0x39 {
        Some(b - 0x30)
    } else if 0x61 <= b && b <= 0x66 {
        Some(b - 0x61 + 10)
    } else if 0x41 <= b && b <= 0x46 {
        Some(b - 0x41 + 10)
    } else {
        None
    }
}

/// Reads the byte that two hexadecimal digits write.
fn read_hex_pair(high: u8, low: u8) -> (r: Option<u8>)
    ensures
        r == hex_pair(high, low),
{
    match (read_hex_digit(high), read_hex_digit(low)) {
        (Some(h), Some(l)) => Some(16 * h + l),
        _ => None,
    }
}

/// Reads the colour that the six bytes from `at` on write.
fn read_hex_triple(s: &[u8], at: usize) -> (r: Option<Rgb>)
    requires
        at + 6 <= s@.len(),
    ensures
        r == hex_triple(s@.subrange(at as int, at + 6)),
{
    let r = read_hex_pair(s[at], s[at + 1]);
    let g = read_hex_pair(s[at + 2], s[at + 3]);
    let b = read_hex_pair(s[at + 4], s[at + 5]);
    match (r, g, b) {
        (Some(r), Some(g), Some(b)) => Some(Rgb { r, g, b }),
        _ => None,
    }
}

/// Reads a colour written as `#RRGGBB`, with or without the `#`.
pub fn parse_hex_color(s: &[u8]) -> (r: Option<Rgb>)
    ensures
        r == hex_color(s@),
{
    let mut at: usize = 0;
    assert(s@.skip(0) =~= s@);
    while at < s.len() && s[at] == 0x23
        invariant
            at <= s@.len(),
            leading_hashes(s@) == at + leading_hashes(s@.skip(at as int)),
        decreases s.len() - at,
    {
        assert(s@.skip(at as int).skip(1) =~= s@.skip(at + 1));
        at += 1;
    }
    if s.len() - at != 6 {
        return None;
    }
    assert(s@.skip(at as int) =~= s@.subrange(at as int, at + 6));
    read_hex_triple(s, at)
}

/// Whether the text is made of hexadecimal digits alone.
pub open spec fn all_hex(s: Seq<u8>) -> bool {
    forall|k: int| 0 <= k < s.len() ==> hex_value(#[trigger] s[k]) is Some
}

/// The number that hexadecimal digits write.
pub open spec fn hex_number(digits: Seq<u8>) -> nat
    decreases digits.len(),
{
    if digits.len() == 0 {
        0
    } else {
        16 * hex_number(digits.drop_last()) + hex_value(digits.last())->0 as nat
    }
}

/// The text without the `+` that it begins with, if it begins with one.
pub open spec fn after_plus(s: Seq<u8>) -> Seq<u8> {
    if s.len() > 0 && s[0] == 0x2b {
        s.skip(1)
    } else {
        s
    }
}

/// The colour that a hexadecimal number writes: an optional `+`, then one
/// hexadecimal digit or more that write a number of 32 bits; red, green and
/// blue are its three low bytes.
pub open spec fn number_color(s: Seq<u8>) -> Option<Rgb> {
    let digits = after_plus(s);
    if digits.len() > 0 && all_hex(digits) && hex_number(digits) <= u32::MAX {
        let v = hex_number(digits);
        Some(Rgb { r: (v / 65536 % 256) as u8, g: (v / 256 % 256) as u8, b: (v % 256) as u8 })
    } else {
        None
    }
}

/// More hexadecimal digits write no smaller a number.
proof fn lemma_hex_number_grows(digits: Seq<u8>, n: int)
    requires
        0 <= n <= digits.len(),
    ensures
        hex_number(digits.take(n)) <= hex_number(digits),
    decreases digits.len() - n,
{
    if n < digits.len() {
        assert(digits.take(n + 1).drop_last() =~= digits.take(n));
        lemma_hex_number_grows(digits, n + 1);
    } else {
        assert(digits.take(n) =~= digits);
    }
}

/// Reads the colour that stands for every part without a colour of its own,
/// written as a hexadecimal number.
pub fn parse_color_number(s: &[u8]) -> (r: Option<Rgb>)
    ensures
        r == number_color(s@),
{
    let from: usize = if s.len() > 0 && s[0] == 0x2b {
        1
    } else {
        0
    };
    let ghost digits = after_plus(s@);
    assert(digits =~= s@.subrange(from as int, s@.len() as int));
    if from == s.len() {
        return None;
    }
    let mut value: u32 = 0;
    let mut i: usize = from;
    assert(digits.take(0) =~= Seq::empty());
    while i < s.len()
        invariant
            from <= i <= s@.len(),
            digits == after_plus(s@),
            digits == s@.subrange(from as int, s@.len() as int),
            forall|k: int| 0 <= k < i - from ==> hex_value(#[trigger] digits[k]) is Some,
            value == hex_number(digits.take(i - from)),
        decreases s.len() - i,
    {
        assert(digits[i - from] == s@[i as int]);
        assert(digits.take(i - from + 1).drop_last() =~= digits.take(i - from));
        assert(digits.take(i - from + 1).last() == s@[i as int]);
        match read_hex_digit(s[i]) {
            None => {
                assert(hex_value(digits[i - from]) is None);
                return None;
            },
            Some(d) => {
                proof {
                    lemma_hex_number_grows(digits, i - from + 1);
                    assert(hex_number(digits.take(i - from + 1)) == 16 * value + d);
                }
                if value > (u32::MAX - d as u32) / 16 {
                    return None;
                }
                value = value * 16 + d as u32;
            },
        }
        i += 1;
    }
    assert(digits.take(i - from) =~= digits);
    Some(Rgb { r: (value / 65536 % 256) as u8, g: (value / 256 % 256) as u8, b: (value % 256) as u8 })
}

/// The colour of extruder `number`, counted from 1, if the table has it.
pub open spec fn table_entry(table: Seq<Rgb>, number: Option<usize>) -> Option<Rgb> {
    match number {
        Some(n) => if 1 <= n <= table.len() {
            Some(table[n - 1])
        } else {
            None
        },
        None => None,
    }
}

/// The colour of a volume: the colour written on it; else the table's colour
/// for its own extruder; else the table's colour for the extruder of its
/// object; else none.
pub open spec fn resolved_color(
    inline: Option<Rgb>,
    volume_extruder: Option<usize>,
    object_extruder: Option<usize>,
    table: Seq<Rgb>,
) -> Option<Rgb> {
    if inline is Some {
        inline
    } else if table_entry(table, volume_extruder) is Some {
        table_entry(table, volume_extruder)
    } else {
        table_entry(table, object_extruder)
    }
}

/// Looks up the colour of extruder `number`, counted from 1.
pub fn lookup_extruder(table: &[Rgb], number: Option<usize>) -> (r: Option<Rgb>)
    ensures
        r == table_entry(table@, number),
{
    match number {
        Some(n) => if 1 <= n && n <= table.len() {
            Some(table[n - 1])
        } else {
            None
        },
        None => None,
    }
}

/// Resolves the colour of a volume.
pub fn resolve_color(
    inline: Option<Rgb>,
    volume_extruder: Option<usize>,
    object_extruder: Option<usize>,
    table: &[Rgb],
) -> (r: Option<Rgb>)
    ensures
        r == resolved_color(inline, volume_extruder, object_extruder, table@),
{
    if inline.is_some() {
        return inline;
    }
    let own = lookup_extruder(table, volume_extruder);
    if own.is_some() {
        return own;
    }
    lookup_extruder(table, object_extruder)
}

/// A volume's own extruder wins over its object's: with no colour written on
/// the volume and an extruder of its own that the table has, the volume gets
/// the table's colour for that extruder, whatever extruder its object
/// declares.
pub proof fn lemma_volume_extruder_wins(
    volume_extruder: usize,
    object_extruder: Option<usize>,
    table: Seq<Rgb>,
)
    requires
        1 <= volume_extruder <= table.len(),
    ensures
        resolved_color(None, Some(volume_extruder), object_extruder, table) == Some(
            table[volume_extruder - 1],
        ),
{
}

/// A colour written on the volume wins over every extruder.
pub proof fn lemma_inline_color_wins(
    color: Rgb,
    volume_extruder: Option<usize>,
    object_extruder: Option<usize>,
    table: Seq<Rgb>,
)
    ensures
        resolved_color(Some(color), volume_extruder, object_extruder, table) == Some(color),
{
}

/// Where the scan of the volume stream stands.
#[derive(Clone, Copy, Debug, PartialEq, Eq)]
pub enum Scan {
    /// Outside any object whose id is known.
    NoObject,
    /// Inside an object, outside its volumes.
    InObject { id: usize, extruder: Option<usize> },
    /// Inside a volume of an object.
    InVolume {
        id: usize,
        object_extruder: Option<usize>,
        first: Option<usize>,
        last: Option<usize>,
        extruder: Option<usize>,
        color: Option<Rgb>,
    },
}

/// What a line of the volume stream can say. A number that is written but
/// does not fit a machine word is absent.
#[derive(Clone, Copy, Debug, PartialEq, Eq)]
pub enum Event {
    /// An object begins, with its id.
    Object(Option<usize>),
    /// The extruder of the object.
    ObjectExtruder(Option<usize>),
    /// A volume begins, with its first and last triangle.
    Volume(Option<usize>, Option<usize>),
    /// The extruder of the volume.
    VolumeExtruder(Option<usize>),
    /// The colour written on the volume.
    Color(Rgb),
    /// The volume ends.
    VolumeEnd,
    /// The stream ends.
    End,
}

impl Scan {
    /// The range that the open volume stands for, with its colour resolved:
    /// none outside a volume, none where a bound of the volume is absent or
    /// the last triangle comes before the first.
    pub open spec fn pending(self, table: Seq<Rgb>) -> Option<VolumeRange> {
        match self {
            Scan::InVolume { id, object_extruder, first: Some(f), last: Some(l), extruder, color } =>
                if f <= l {
                    Some(
                        VolumeRange {
                            object_id: id,
                            first: f,
                            last: l,
                            color: resolved_color(color, extruder, object_extruder, table),
                        },
                    )
                } else {
                    None
                },
            _ => None,
        }
    }

    /// The range that the event closes: the open volume is closed by the end
    /// of the volume, by the next volume, by the next object and by the end
    /// of the stream.
    pub open spec fn emitted(self, event: Event, table: Seq<Rgb>) -> Option<VolumeRange> {
        match event {
            Event::Object(_) | Event::Volume(_, _) | Event::VolumeEnd | Event::End => self.pending(
                table,
            ),
            _ => None,
        }
    }

    /// The state after the event.
    pub open spec fn after(self, event: Event) -> Scan {
        match event {
            Event::Object(Some(id)) => Scan::InObject { id, extruder: None },
            Event::Object(None) => Scan::NoObject,
            Event::ObjectExtruder(e) => match self {
                Scan::InObject { id, extruder } => Scan::InObject { id, extruder: e },
                _ => self,
            },
            Event::Volume(first, last) => match self {
                Scan::NoObject => Scan::NoObject,
                Scan::InObject { id, extruder } => Scan::InVolume {
                    id,
                    object_extruder: extruder,
                    first,
                    last,
                    extruder: None,
                    color: None,
                },
                Scan::InVolume { id, object_extruder, .. } => Scan::InVolume {
                    id,
                    object_extruder,
                    first,
                    last,
                    extruder: None,
                    color: None,
                },
            },
            Event::VolumeExtruder(e) => match self {
                Scan::InVolume { id, object_extruder, first, last, extruder, color } =>
                    Scan::InVolume { id, object_extruder, first, last, extruder: e, color },
                _ => self,
            },
            Event::Color(c) => match self {
                Scan::InVolume { id, object_extruder, first, last, extruder, color } =>
                    Scan::InVolume { id, object_extruder, first, last, extruder, color: Some(c) },
                _ => self,
            },
            Event::VolumeEnd => match self {
                Scan::InVolume { id, object_extruder, .. } => Scan::InObject {
                    id,
                    extruder: object_extruder,
                },
                _ => self,
            },
            Event::End => Scan::NoObject,
        }
    }

    /// Takes one event: gives the next state and the range that the event
    /// closes, if it closes one.
    pub fn advance(self, event: Event, table: &[Rgb]) -> (r: (Scan, Option<VolumeRange>))
        ensures
            r.0 == self.after(event),
            r.1 == self.emitted(event, table@),
            r.1 matches Some(range) ==> range.wf(),
    {
        let closes = match event {
            Event::Object(_) | Event::Volume(_, _) | Event::VolumeEnd | Event::End => true,
            _ => false,
        };
        let out = if closes {
            match self {
                Scan::InVolume {
                    id,
                    object_extruder,
                    first: Some(f),
                    last: Some(l),
                    extruder,
                    color,
                } => {
                    if f <= l {
                        Some(
                            VolumeRange {
                                object_id: id,
                                first: f,
                                last: l,
                                color: resolve_color(color, extruder, object_extruder, table),
                            },
                        )
                    } else {
                        None
                    }
                },
                _ => None,
            }
        } else {
            None
        };
        let next = match event {
            Event::Object(Some(id)) => Scan::InObject { id, extruder: None },
            Event::Object(None) => Scan::NoObject,
            Event::ObjectExtruder(e) => match self {
                Scan::InObject { id, extruder } => Scan::InObject { id, extruder: e },
                _ => self,
            },
            Event::Volume(first, last) => match self {
                Scan::NoObject => Scan::NoObject,
                Scan::InObject { id, extruder } => Scan::InVolume {
                    id,
                    object_extruder: extruder,
                    first,
                    last,
                    extruder: None,
                    color: None,
                },
                Scan::InVolume { id, object_extruder, .. } => Scan::InVolume {
                    id,
                    object_extruder,
                    first,
                    last,
                    extruder: None,
                    color: None,
                },
            },
            Event::VolumeExtruder(e) => match self {
                Scan::InVolume { id, object_extruder, first, last, extruder, color } =>
                    Scan::InVolume { id, object_extruder, first, last, extruder: e, color },
                _ => self,
            },
            Event::Color(c) => match self {
                Scan::InVolume { id, object_extruder, first, last, extruder, color } =>
                    Scan::InVolume { id, object_extruder, first, last, extruder, color: Some(c) },
                _ => self,
            },
            Event::VolumeEnd => match self {
                Scan::InVolume { id, object_extruder, .. } => Scan::InObject {
                    id,
                    extruder: object_extruder,
                },
                _ => self,
            },
            Event::End => Scan::NoObject,
        };
        (next, out)
    }
}

/// The ranges that a run of events closes, from a given state on.
pub open spec fn closed_by(state: Scan, events: Seq<Event>, table: Seq<Rgb>) -> Seq<VolumeRange>
    decreases events.len(),
{
    if events.len() == 0 {
        Seq::empty()
    } else {
        let rest = closed_by(state.after(events[0]), events.skip(1), table);
        match state.emitted(events[0], table) {
            Some(range) => seq![range] + rest,
            None => rest,
        }
    }
}

/// The state after a run of events.
pub open spec fn state_after(state: Scan, events: Seq<Event>) -> Scan
    decreases events.len(),
{
    if events.len() == 0 {
        state
    } else {
        state_after(state.after(events[0]), events.skip(1))
    }
}

/// A marker of one number: the text before the number, the digits, and the
/// quotation mark that closes the value.
pub open spec fn number_marker(before: Seq<u8>) -> Seq<PieceView> {
    seq![
        PieceView::Text(before),
        PieceView::Run(ByteClass::Digit),
        PieceView::Text("\"".spec_bytes()),
    ]
}

/// The number of the first marker of that kind in the line, if the line holds
/// such a marker.
pub open spec fn marked_number(line: Seq<u8>, before: Seq<u8>) -> Option<Option<usize>> {
    match first_marker(line, number_marker(before)) {
        Some((at, ends)) => Some(number(line.subrange(ends[0], ends[1]))),
        None => None,
    }
}

/// The marker of a volume: its first and its last triangle.
pub open spec fn volume_marker() -> Seq<PieceView> {
    seq![
        PieceView::Text("<volume firstid=\"".spec_bytes()),
        PieceView::Run(ByteClass::Digit),
        PieceView::Text("\" lastid=\"".spec_bytes()),
        PieceView::Run(ByteClass::Digit),
        PieceView::Text("\">".spec_bytes()),
    ]
}

/// The marker of a colour written on a volume: `#` and six hexadecimal
/// digits.
pub open spec fn color_marker() -> Seq<PieceView> {
    seq![
        PieceView::Text("<metadata type=\"volume\" key=\"color\" value=\"#".spec_bytes()),
        PieceView::Count(ByteClass::Hex, 6),
        PieceView::Text("\"".spec_bytes()),
    ]
}

/// The marker of the end of a volume.
pub open spec fn volume_end_marker() -> Seq<PieceView> {
    seq![PieceView::Text("</volume>".spec_bytes())]
}

/// The event that an object's id gives.
pub open spec fn object_event(line: Seq<u8>) -> Seq<Event> {
    match marked_number(line, "<object id=\"".spec_bytes()) {
        Some(id) => seq![Event::Object(id)],
        None => Seq::empty(),
    }
}

/// The event that an object's extruder gives.
pub open spec fn object_extruder_event(line: Seq<u8>) -> Seq<Event> {
    match marked_number(
        line,
        "<metadata type=\"object\" key=\"extruder\" value=\"".spec_bytes(),
    ) {
        Some(e) => seq![Event::ObjectExtruder(e)],
        None => Seq::empty(),
    }
}

/// The event that the start of a volume gives.
pub open spec fn volume_event(line: Seq<u8>) -> Seq<Event> {
    match first_marker(line, volume_marker()) {
        Some((at, ends)) => seq![
            Event::Volume(
                number(line.subrange(ends[0], ends[1])),
                number(line.subrange(ends[2], ends[3])),
            ),
        ],
        None => Seq::empty(),
    }
}

/// The event that a volume's extruder gives.
pub open spec fn volume_extruder_event(line: Seq<u8>) -> Seq<Event> {
    match marked_number(
        line,
        "<metadata type=\"volume\" key=\"extruder\" value=\"".spec_bytes(),
    ) {
        Some(e) => seq![Event::VolumeExtruder(e)],
        None => Seq::empty(),
    }
}

/// The event that a colour written on a volume gives.
pub open spec fn color_event(line: Seq<u8>) -> Seq<Event> {
    match first_marker(line, color_marker()) {
        Some((at, ends)) => match hex_triple(line.subrange(ends[0], ends[1])) {
            Some(c) => seq![Event::Color(c)],
            None => Seq::empty(),
        },
        None => Seq::empty(),
    }
}

/// The event that the end of a volume gives.
pub open spec fn volume_end_event(line: Seq<u8>) -> Seq<Event> {
    if first_marker(line, volume_end_marker()) is Some {
        seq![Event::VolumeEnd]
    } else {
        Seq::empty()
    }
}

/// The events of one line, in the order in which they are taken: object,
/// object extruder, volume, volume extruder, colour, end of volume. Of each
/// kind the line gives the first marker only.
pub open spec fn line_events(line: Seq<u8>) -> Seq<Event> {
    object_event(line) + object_extruder_event(line) + volume_event(line) + volume_extruder_event(
        line,
    ) + color_event(line) + volume_end_event(line)
}

/// Finds the number of the first marker of one number.
fn find_number(line: &[u8], before: &str) -> (r: Option<Option<usize>>)
    ensures
        r == marked_number(line@, before.spec_bytes()),
{
    let marker = [
        Piece::Text(before.as_bytes()),
        Piece::Run(ByteClass::Digit),
        Piece::Text("\"".as_bytes()),
    ];
    assert(piece_views(marker@) =~= number_marker(before.spec_bytes()));
    match find_marker(line, marker.as_slice()) {
        Some(found) => {
            proof {
                let m = number_marker(before.spec_bytes());
                lemma_marker_from(line@, 0, m);
                lemma_marker_piece(line@, found.at as int, m, 0);
                lemma_marker_piece(line@, found.at as int, m, 1);
                lemma_run_members(line@, found.ends@[0] as int, ByteClass::Digit);
            }
            Some(read_number(line, found.ends[0], found.ends[1]))
        },
        None => None,
    }
}

/// Reads the events of one line.
pub fn read_events(line: &[u8]) -> (events: Vec<Event>)
    ensures
        events@ == line_events(line@),
{
    let mut events: Vec<Event> = Vec::new();
    match find_number(line, "<object id=\"") {
        Some(id) => events.push(Event::Object(id)),
        None => {},
    }
    assert(events@ =~= object_event(line@));
    match find_number(line, "<metadata type=\"object\" key=\"extruder\" value=\"") {
        Some(e) => events.push(Event::ObjectExtruder(e)),
        None => {},
    }
    assert(events@ =~= object_event(line@) + object_extruder_event(line@));
    let ghost so_far = events@;
    let volume = [
        Piece::Text("<volume firstid=\"".as_bytes()),
        Piece::Run(ByteClass::Digit),
        Piece::Text("\" lastid=\"".as_bytes()),
        Piece::Run(ByteClass::Digit),
        Piece::Text("\">".as_bytes()),
    ];
    assert(piece_views(volume@) =~= volume_marker());
    match find_marker(line, volume.as_slice()) {
        Some(found) => {
            proof {
                lemma_marker_from(line@, 0, volume_marker());
                lemma_marker_piece(line@, found.at as int, volume_marker(), 0);
                lemma_marker_piece(line@, found.at as int, volume_marker(), 1);
                lemma_marker_piece(line@, found.at as int, volume_marker(), 2);
                lemma_marker_piece(line@, found.at as int, volume_marker(), 3);
                lemma_run_members(line@, found.ends@[0] as int, ByteClass::Digit);
                lemma_run_members(line@, found.ends@[2] as int, ByteClass::Digit);
            }
            let first = read_number(line, found.ends[0], found.ends[1]);
            let last = read_number(line, found.ends[2], found.ends[3]);
            events.push(Event::Volume(first, last));
        },
        None => {},
    }
    assert(events@ =~= so_far + volume_event(line@));
    match find_number(line, "<metadata type=\"volume\" key=\"extruder\" value=\"") {
        Some(e) => events.push(Event::VolumeExtruder(e)),
        None => {},
    }
    assert(events@ =~= so_far + volume_event(line@) + volume_extruder_event(line@));
    let ghost so_far = events@;
    let color = [
        Piece::Text("<metadata type=\"volume\" key=\"color\" value=\"#".as_bytes()),
        Piece::Count(ByteClass::Hex, 6),
        Piece::Text("\"".as_bytes()),
    ];
    assert(piece_views(color@) =~= color_marker());
    match find_marker(line, color.as_slice()) {
        Some(found) => {
            proof {
                lemma_marker_from(line@, 0, color_marker());
                lemma_marker_piece(line@, found.at as int, color_marker(), 0);
                lemma_marker_piece(line@, found.at as int, color_marker(), 1);
            }
            match read_hex_triple(line, found.ends[0]) {
                Some(c) => events.push(Event::Color(c)),
                None => {},
            }
        },
        None => {},
    }
    assert(events@ =~= so_far + color_event(line@));
    let ghost so_far = events@;
    let end = [Piece::Text("</volume>".as_bytes())];
    assert(piece_views(end@) =~= volume_end_marker());
    if find_marker(line, end.as_slice()).is_some() {
        events.push(Event::VolumeEnd);
    }
    assert(events@ =~= so_far + volume_end_event(line@));
    events
}

/// Takes a run of events: appends the ranges that they close, and gives the
/// state after them.
pub fn feed(state: Scan, events: &Vec<Event>, table: &[Rgb], ranges: &mut Vec<VolumeRange>) -> (next:
    Scan)
    requires
        forall|i: int| 0 <= i < old(ranges)@.len() ==> (#[trigger] old(ranges)@[i]).wf(),
    ensures
        final(ranges)@ == old(ranges)@ + closed_by(state, events@, table@),
        next == state_after(state, events@),
        forall|i: int| 0 <= i < final(ranges)@.len() ==> (#[trigger] final(ranges)@[i]).wf(),
{
    let ghost start = ranges@;
    let mut now = state;
    let mut k: usize = 0;
    assert(events@.skip(0) =~= events@);
    assert(ranges@ + closed_by(now, events@.skip(0), table@) =~= start + closed_by(
        state,
        events@,
        table@,
    ));
    while k < events.len()
        invariant
            k <= events@.len(),
            ranges@ + closed_by(now, events@.skip(k as int), table@) == start + closed_by(
                state,
                events@,
                table@,
            ),
            state_after(now, events@.skip(k as int)) == state_after(state, events@),
            forall|i: int| 0 <= i < ranges@.len() ==> (#[trigger] ranges@[i]).wf(),
        decreases events.len() - k,
    {
        let ghost tail = events@.skip(k as int);
        let ghost before = ranges@;
        assert(tail[0] == events@[k as int]);
        assert(tail.skip(1) =~= events@.skip(k + 1));
        let (next, out) = now.advance(events[k], table);
        match out {
            Some(range) => {
                ranges.push(range);
                assert(ranges@ + closed_by(next, tail.skip(1), table@) =~= before + closed_by(
                    now,
                    tail,
                    table@,
                ));
            },
            None => {},
        }
        now = next;
        k += 1;
    }
    assert(events@.skip(k as int) =~= Seq::empty());
    assert(ranges@ + Seq::<VolumeRange>::empty() =~= ranges@);
    now
}

/// The ranges that the lines close from a given state on, the end of the
/// stream after the last line included.
pub open spec fn scanned(state: Scan, lines: Seq<Seq<u8>>, table: Seq<Rgb>) -> Seq<VolumeRange>
    decreases lines.len(),
{
    if lines.len() == 0 {
        closed_by(state, seq![Event::End], table)
    } else {
        closed_by(state, line_events(lines[0]), table) + scanned(
            state_after(state, line_events(lines[0])),
            lines.skip(1),
            table,
        )
    }
}

/// The volume ranges that the volume stream records, in the order in which
/// their volumes close.
pub open spec fn volume_stream(text: Seq<u8>, table: Seq<Rgb>) -> Seq<VolumeRange> {
    scanned(Scan::NoObject, lines(text), table)
}

/// Reads the volume ranges of the volume stream, each with its colour
/// resolved against the table of extruder colours.
pub fn parse_slic3r_volumes(text: &[u8], table: &[Rgb]) -> (ranges: Vec<VolumeRange>)
    ensures
        ranges@ == volume_stream(text@, table@),
        forall|i: int| 0 <= i < ranges@.len() ==> (#[trigger] ranges@[i]).wf(),
{
    let mut ranges: Vec<VolumeRange> = Vec::new();
    let mut state = Scan::NoObject;
    let mut at: usize = 0;
    assert(ranges@ + scanned(state, lines_from(text@, 0), table@) =~= volume_stream(
        text@,
        table@,
    ));
    while at < text.len()
        invariant
            at <= text@.len(),
            ranges@ + scanned(state, lines_from(text@, at as int), table@) == volume_stream(
                text@,
                table@,
            ),
            forall|i: int| 0 <= i < ranges@.len() ==> (#[trigger] ranges@[i]).wf(),
        decreases text.len() - at,
    {
        let (end, next) = next_line(text, at);
        let line = slice_subrange(text, at, end);
        let events = read_events(line);
        let ghost rest = lines_from(text@, at as int);
        let ghost before = ranges@;
        let ghost old_state = state;
        assert(rest[0] == line@);
        assert(rest.skip(1) =~= lines_from(text@, next as int));
        state = feed(state, &events, table, &mut ranges);
        assert(ranges@ + scanned(state, lines_from(text@, next as int), table@) =~= before
            + scanned(old_state, rest, table@));
        at = next;
    }
    let mut last: Vec<Event> = Vec::new();
    last.push(Event::End);
    assert(last@ =~= seq![Event::End]);
    feed(state, &last, table, &mut ranges);
    ranges
}

/// The colours that the entries write, in order. An entry is read without
/// the white space around it; one that writes no colour is left out.
pub open spec fn colors_of(entries: Seq<Seq<u8>>) -> Seq<Rgb>
    decreases entries.len(),
{
    if entries.len() == 0 {
        Seq::empty()
    } else {
        let rest = colors_of(entries.skip(1));
        match hex_color(trimmed(entries[0])) {
            Some(c) => seq![c] + rest,
            None => rest,
        }
    }
}

/// The colours of a line that lists the extruder colours: the entries between
/// semicolons of what stands between the first `=` and the next.
pub open spec fn listed_colors(line: Seq<u8>) -> Seq<Rgb> {
    colors_of(fields(trimmed(fields(line, 0x3d)[1]), 0x3b))
}

/// Whether the line lists the extruder colours.
pub open spec fn lists_colors(line: Seq<u8>) -> bool {
    starts_with(line, "; extruder_colour =".spec_bytes())
}

/// The colours of the first line that lists extruder colours, or no colours
/// where no line does.
pub open spec fn table_in(lines: Seq<Seq<u8>>) -> Seq<Rgb>
    decreases lines.len(),
{
    if lines.len() == 0 {
        Seq::empty()
    } else if lists_colors(lines[0]) {
        listed_colors(lines[0])
    } else {
        table_in(lines.skip(1))
    }
}

/// The table of extruder colours that the configuration text holds: entry 0
/// is the colour of extruder 1.
pub open spec fn extruder_table(text: Seq<u8>) -> Seq<Rgb> {
    table_in(lines(text))
}

/// Reads the colours of a list of entries between semicolons.
fn read_colors(s: &[u8]) -> (colors: Vec<Rgb>)
    ensures
        colors@ == colors_of(fields(s@, 0x3b)),
{
    let mut colors: Vec<Rgb> = Vec::new();
    let mut from: usize = 0;
    let mut done = false;
    assert(colors@ + colors_of(fields_from(s@, 0, 0x3b)) =~= colors_of(fields(s@, 0x3b)));
    while !done
        invariant
            from <= s@.len(),
            !done ==> colors@ + colors_of(fields_from(s@, from as int, 0x3b)) == colors_of(
                fields(s@, 0x3b),
            ),
            done ==> colors@ == colors_of(fields(s@, 0x3b)),
        decreases s.len() - from + (if done { 0int } else { 1int }),
    {
        let at = seek_byte(s, from, 0x3b);
        let entry = slice_subrange(s, from, at);
        let ghost rest = fields_from(s@, from as int, 0x3b);
        let ghost before = colors@;
        assert(rest[0] == entry@);
        match parse_hex_color(trim(entry)) {
            Some(c) => colors.push(c),
            None => {},
        }
        if at >= s.len() {
            assert(rest =~= seq![entry@]);
            assert(rest.skip(1) =~= Seq::empty());
            assert(colors_of(rest.skip(1)) =~= Seq::empty());
            assert(colors@ =~= before + colors_of(rest));
            done = true;
        } else {
            assert(rest.skip(1) =~= fields_from(s@, at + 1, 0x3b));
            assert(colors@ + colors_of(rest.skip(1)) =~= before + colors_of(rest));
            from = at + 1;
        }
    }
    colors
}

/// Reads the table of extruder colours from the configuration text.
pub fn parse_extruder_colors(text: &[u8]) -> (table: Vec<Rgb>)
    ensures
        table@ == extruder_table(text@),
{
    let mut at: usize = 0;
    while at < text.len()
        invariant
            at <= text@.len(),
            table_in(lines_from(text@, at as int)) == extruder_table(text@),
        decreases text.len() - at,
    {
        let (end, next) = next_line(text, at);
        let line = slice_subrange(text, at, end);
        let ghost rest = lines_from(text@, at as int);
        assert(rest[0] == line@);
        assert(rest.skip(1) =~= lines_from(text@, next as int));
        if has_prefix(line, "; extruder_colour =".as_bytes()) {
            let first = seek_byte(line, 0, 0x3d);
            proof {
                lemma_next_byte_bounds(line@, 0, 0x3d);
                lemma_prefix_has_equals(line@);
            }
            let second = seek_byte(line, first + 1, 0x3d);
            let field = slice_subrange(line, first + 1, second);
            proof {
                lemma_next_byte_bounds(line@, first + 1, 0x3d);
                let all = fields(line@, 0x3d);
                let tail = fields_from(line@, first + 1, 0x3d);
                assert(all =~= seq![line@.subrange(0, first as int)] + tail);
                assert(tail[0] == field@);
                assert(all[1] == field@);
            }
            return read_colors(trim(field));
        }
        at = next;
    }
    Vec::new()
}

/// A line that lists the extruder colours holds an `=`.
proof fn lemma_prefix_has_equals(line: Seq<u8>)
    requires
        lists_colors(line),
    ensures
        next_byte(line, 0, 0x3d) < line.len(),
{
    let prefix = "; extruder_colour =".spec_bytes();
    reveal_strlit("; extruder_colour =");
    vstd::string::is_ascii_spec_bytes("; extruder_colour =");
    assert(prefix.len() == 19);
    assert(prefix[18] == 0x3d);
    assert(line.subrange(0, 19)[18] == line[18]);
    lemma_next_byte_bounds(line, 0, 0x3d);
}

} // verus!
