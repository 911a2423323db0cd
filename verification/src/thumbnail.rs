//! The pictures that a file carries of itself: those written into a toolpath
//! as text, and the one packed into a package.

use vstd::prelude::*;
use vstd::slice::slice_subrange;
use vstd::string::StringSliceAdditionalSpecFns;
use vstd::utf8::valid_utf8;
use crate::decode::{as_text, base64_bytes, decode_base64};
use crate::parse::{packed_entry, unpack, Packed};
use crate::text::{
    decimal, fields, fields_from, has_prefix, is_digit, lemma_next_byte_bounds, lines,
    lines_from, next_byte, next_line, read_number, scan_run, seek_byte, starts_with, trim,
    trimmed, ByteClass,
};

verus! {

/// A picture written into a toolpath: the size that its header declares, and
/// its bytes in the encoding of an image file.
#[derive(Clone, Debug, PartialEq, Eq)]
pub struct Picture {
    pub width: u32,
    pub height: u32,
    pub data: Vec<u8>,
}

impl Picture {
    /// The number of pixels that the header declares.
    pub open spec fn area(&self) -> nat {
        (self.width * self.height) as nat
    }
}

/// Field `n` of `s` among those that `sep` separates, if there are so many.
pub open spec fn nth_field(s: Seq<u8>, sep: u8, n: nat) -> Option<Seq<u8>> {
    if n < fields(s, sep).len() {
        Some(fields(s, sep)[n as int])
    } else {
        None
    }
}

/// The text without the `+` that it begins with, if it begins with one.
pub open spec fn unsigned_part(s: Seq<u8>) -> Seq<u8> {
    if s.len() > 0 && s[0] == 0x2b {
        s.skip(1)
    } else {
        s
    }
}

/// Whether the text is made of decimal digits alone.
pub open spec fn all_digits(s: Seq<u8>) -> bool {
    forall|k: int| 0 <= k < s.len() ==> is_digit(#[trigger] s[k])
}

/// The number that a text writes as an optional `+` and decimal digits,
/// where it fits 32 bits; else zero.
pub open spec fn unsigned_or_zero(s: Seq<u8>) -> u32 {
    let digits = unsigned_part(s);
    if digits.len() > 0 && all_digits(digits) && decimal(digits) <= u32::MAX {
        decimal(digits) as u32
    } else {
        0
    }
}

/// What has been gathered of the pictures of a toolpath: the pictures that
/// are complete, whether a picture is open, and the size and the text of the
/// picture that was opened last.
pub struct Gathering {
    pub pictures: Seq<Picture>,
    pub open: bool,
    pub width: u32,
    pub height: u32,
    pub text: Seq<u8>,
}

/// What a line of a toolpath means to the gathering of pictures.
pub enum LineKind {
    /// The header of a picture.
    Begin,
    /// The footer of a picture.
    End,
    /// The start of the commands: no picture follows.
    Commands,
    /// Anything else.
    Other,
}

/// The kind of a line.
pub open spec fn kind_of(line: Seq<u8>) -> LineKind {
    if starts_with(line, "; thumbnail begin".spec_bytes()) {
        LineKind::Begin
    } else if starts_with(line, "; thumbnail end".spec_bytes()) {
        LineKind::End
    } else if starts_with(line, "; EXECUTABLE_BLOCK_START".spec_bytes()) {
        LineKind::Commands
    } else {
        LineKind::Other
    }
}

/// The part of a picture's text that a line holds: the line without its
/// first two bytes and without the white space around the rest.
pub open spec fn payload(line: Seq<u8>) -> Seq<u8> {
    if line.len() < 2 {
        Seq::empty()
    } else {
        trimmed(line.skip(2))
    }
}

impl Gathering {
    /// The gathering before the first line.
    pub open spec fn start() -> Gathering {
        Gathering { pictures: Seq::empty(), open: false, width: 0, height: 0, text: Seq::empty() }
    }

    /// The gathering after a header. The size stands in the fourth field of
    /// the header as width, `x`, height; a header without a fourth field
    /// changes nothing. A picture is open only where both are above zero.
    pub open spec fn after_begin(self, line: Seq<u8>) -> Gathering {
        match nth_field(line, 0x20, 3) {
            None => self,
            Some(size) => {
                let width = unsigned_or_zero(fields(size, 0x78)[0]);
                let height = match nth_field(size, 0x78, 1) {
                    Some(h) => unsigned_or_zero(h),
                    None => 0,
                };
                Gathering {
                    pictures: self.pictures,
                    open: width > 0 && height > 0,
                    width,
                    height,
                    text: Seq::empty(),
                }
            },
        }
    }

    /// The gathering after a footer: the text gathered since the last header
    /// is decoded, and where it decodes, the picture is complete.
    pub open spec fn after_end(self) -> Gathering {
        Gathering {
            pictures: match base64_bytes(self.text) {
                Some(data) => self.pictures.push(
                    Picture { width: self.width, height: self.height, data },
                ),
                None => self.pictures,
            },
            open: false,
            ..self
        }
    }

    /// The gathering after a line that is neither header nor footer.
    pub open spec fn after_other(self, line: Seq<u8>) -> Gathering {
        if self.open {
            Gathering { text: self.text + payload(line), ..self }
        } else {
            self
        }
    }

    /// Whether the line ends the gathering: outside a picture, the start of
    /// the commands does.
    pub open spec fn stops_at(self, line: Seq<u8>) -> bool {
        kind_of(line) is Commands && !self.open
    }

    /// The gathering after a line that does not end it.
    pub open spec fn after(self, line: Seq<u8>) -> Gathering {
        match kind_of(line) {
            LineKind::Begin => self.after_begin(line),
            LineKind::End => self.after_end(),
            _ => self.after_other(line),
        }
    }
}

/// The pictures that are complete once the lines are taken, from a given
/// gathering on. The lines are taken up to the first that is not well-formed
/// text or that ends the gathering.
pub open spec fn gathered(state: Gathering, lines: Seq<Seq<u8>>) -> Seq<Picture>
    decreases lines.len(),
{
    if lines.len() == 0 || !valid_utf8(lines[0]) || state.stops_at(lines[0]) {
        state.pictures
    } else {
        gathered(state.after(lines[0]), lines.skip(1))
    }
}

/// The pictures that a toolpath carries, in the order of the text.
pub open spec fn pictures_in(text: Seq<u8>) -> Seq<Picture> {
    gathered(Gathering::start(), lines(text))
}

/// Whether picture `d` is the largest: none declares more pixels, and every
/// picture before it declares fewer.
pub open spec fn is_largest(pictures: Seq<Picture>, d: int) -> bool {
    &&& 0 <= d < pictures.len()
    &&& forall|j: int| 0 <= j < pictures.len() ==> (#[trigger] pictures[j]).area() <= pictures[d].area()
    &&& forall|j: int| 0 <= j < d ==> (#[trigger] pictures[j]).area() < pictures[d].area()
}

/// Reads the number that a text writes as an optional `+` and decimal
/// digits.
fn read_unsigned(s: &[u8]) -> (r: u32)
    ensures
        r == unsigned_or_zero(s@),
{
    let from: usize = if s.len() > 0 && s[0] == 0x2b {
        1
    } else {
        0
    };
    let ghost digits = unsigned_part(s@);
    assert(digits =~= s@.subrange(from as int, s@.len() as int));
    let end = scan_run(s, from, ByteClass::Digit);
    if end < s.len() || end == from {
        proof {
            if end < s@.len() {
                assert(digits[end - from] == s@[end as int]);
                assert(!ByteClass::Digit.has(s@[end as int]));
                assert(!is_digit(digits[end - from]));
            }
        }
        return 0;
    }
    assert forall|k: int| 0 <= k < digits.len() implies is_digit(#[trigger] digits[k]) by {
        assert(ByteClass::Digit.has(s@[from + k]));
    }
    match read_number(s, from, end) {
        Some(v) => if v <= u32::MAX as usize {
            v as u32
        } else {
            0
        },
        None => 0,
    }
}

/// Finds field `n` of `s` among those that `sep` separates.
fn field(s: &[u8], sep: u8, n: usize) -> (r: Option<&[u8]>)
    ensures
        r is Some <==> nth_field(s@, sep, n as nat) is Some,
        r matches Some(f) ==> nth_field(s@, sep, n as nat) == Some(f@),
        n == 0 ==> r is Some,
{
    let mut from: usize = 0;
    let mut k: usize = 0;
    loop
        invariant
            from <= s@.len(),
            k <= n,
            nth_field(s@, sep, n as nat) == (if (n - k) < fields_from(s@, from as int, sep).len() {
                Some(fields_from(s@, from as int, sep)[n - k])
            } else {
                None::<Seq<u8>>
            }),
        decreases s.len() - from,
    {
        let at = seek_byte(s, from, sep);
        let ghost rest = fields_from(s@, from as int, sep);
        proof {
            lemma_next_byte_bounds(s@, from as int, sep);
        }
        if k == n {
            let f = slice_subrange(s, from, at);
            assert(rest[0] == f@);
            return Some(f);
        }
        if at >= s.len() {
            assert(rest =~= seq![s@.subrange(from as int, s@.len() as int)]);
            return None;
        }
        assert(rest =~= seq![s@.subrange(from as int, at as int)] + fields_from(s@, at + 1, sep));
        proof {
            if n - k < rest.len() {
                assert(rest[n - k] == fields_from(s@, at + 1, sep)[n - k - 1]);
            }
        }
        from = at + 1;
        k += 1;
    }
}

/// Gathers the pictures that a toolpath carries.
pub fn gather_pictures(text: &[u8]) -> (pictures: Vec<Picture>)
    ensures
        pictures@ == pictures_in(text@),
{
    let mut pictures: Vec<Picture> = Vec::new();
    let mut open = false;
    let mut width: u32 = 0;
    let mut height: u32 = 0;
    let mut gathering: Vec<u8> = Vec::new();
    let mut at: usize = 0;
    while at < text.len()
        invariant
            at <= text@.len(),
            gathered(
                Gathering { pictures: pictures@, open, width, height, text: gathering@ },
                lines_from(text@, at as int),
            ) == pictures_in(text@),
        decreases text.len() - at,
    {
        let (end, next) = next_line(text, at);
        let line = slice_subrange(text, at, end);
        let ghost rest = lines_from(text@, at as int);
        let ghost state = Gathering { pictures: pictures@, open, width, height, text: gathering@ };
        assert(rest[0] == line@);
        assert(rest.skip(1) =~= lines_from(text@, next as int));
        if as_text(line).is_none() {
            return pictures;
        }
        if has_prefix(line, "; thumbnail begin".as_bytes()) {
            match field(line, 0x20, 3) {
                None => {},
                Some(size) => {
                    let w = match field(size, 0x78, 0) {
                        Some(f) => read_unsigned(f),
                        None => 0,
                    };
                    let h = match field(size, 0x78, 1) {
                        Some(f) => read_unsigned(f),
                        None => 0,
                    };
                    width = w;
                    height = h;
                    gathering = Vec::new();
                    open = w > 0 && h > 0;
                },
            }
        } else if has_prefix(line, "; thumbnail end".as_bytes()) {
            open = false;
            match decode_base64(gathering.as_slice()) {
                Some(data) => {
                    pictures.push(Picture { width, height, data });
                },
                None => {},
            }
        } else if open {
            if line.len() >= 2 {
                let tail = slice_subrange(line, 2, line.len());
                assert(tail@ =~= line@.skip(2));
                let part = trim(tail);
                let mut i: usize = 0;
                let ghost before = gathering@;
                while i < part.len()
                    invariant
                        i <= part@.len(),
                        gathering@ == before + part@.take(i as int),
                    decreases part.len() - i,
                {
                    gathering.push(part[i]);
                    assert(part@.take(i + 1) =~= part@.take(i as int).push(part@[i as int]));
                    i += 1;
                }
                assert(part@.take(i as int) =~= part@);
            } else {
                assert(gathering@ + Seq::<u8>::empty() =~= gathering@);
            }
        } else if has_prefix(line, "; EXECUTABLE_BLOCK_START".as_bytes()) {
            return pictures;
        }
        assert(Gathering { pictures: pictures@, open, width, height, text: gathering@ }
            == state.after(line@));
        at = next;
    }
    pictures
}

/// Finds the largest picture: the first of those that declare the most
/// pixels.
pub fn largest_picture(pictures: &Vec<Picture>) -> (r: Option<usize>)
    ensures
        r is Some <==> pictures@.len() > 0,
        r matches Some(d) ==> is_largest(pictures@, d as int),
{
    if pictures.len() == 0 {
        return None;
    }
    let mut best: usize = 0;
    let mut most: u64 = area_of(&pictures[0]);
    let mut j: usize = 1;
    while j < pictures.len()
        invariant
            1 <= j <= pictures@.len(),
            best < j,
            most == pictures@[best as int].area(),
            forall|i: int| 0 <= i < j ==> (#[trigger] pictures@[i]).area() <= most,
            forall|i: int| 0 <= i < best ==> (#[trigger] pictures@[i]).area() < most,
        decreases pictures.len() - j,
    {
        let n = area_of(&pictures[j]);
        if n > most {
            best = j;
            most = n;
        }
        j += 1;
    }
    Some(best)
}

/// Gives the number of pixels that the header of a picture declares.
fn area_of(picture: &Picture) -> (n: u64)
    ensures
        n == picture.area(),
{
    assert(picture.width * picture.height <= 0xffff_ffff * 0xffff_ffff) by (nonlinear_arith)
        requires
            picture.width <= 0xffff_ffff,
            picture.height <= 0xffff_ffff,
    ;
    picture.width as u64 * picture.height as u64
}

/// The picture that a package carries: the first entry whose name ends with
/// the name of the middle-sized thumbnail.
pub open spec fn package_picture(bytes: Seq<u8>) -> Packed {
    packed_entry(bytes, "thumbnail_middle.png".spec_bytes())
}

/// Takes the picture that a package carries, in the encoding of an image
/// file.
pub fn extract_image_from_3mf(bytes: &[u8]) -> (r: Packed)
    ensures
        r == package_picture(bytes@),
{
    unpack(bytes, "thumbnail_middle.png".as_bytes())
}

/// Takes the largest picture that a toolpath carries, in the encoding of an
/// image file; nothing where the toolpath carries none.
pub fn extract_image_from_gcode(text: &[u8]) -> (r: Option<Picture>)
    ensures
        r is Some <==> pictures_in(text@).len() > 0,
        r matches Some(p) ==> exists|d: int|
            is_largest(pictures_in(text@), d) && p == #[trigger] pictures_in(text@)[d],
{
    let mut pictures = gather_pictures(text);
    match largest_picture(&pictures) {
        None => None,
        Some(d) => {
            let picture = pictures.swap_remove(d);
            Some(picture)
        },
    }
}

} // verus!
