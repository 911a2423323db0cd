//! The formats: which reader a file name selects, to which family a source
//! format belongs, and the encodings a thumbnail can be written in.

use vstd::prelude::*;
use vstd::string::{StringExecFns, StringSliceAdditionalSpecFns};
use crate::text::{ends_with, has_suffix};

verus! {

/// A source format, as a file name selects it.
#[derive(Clone, Copy, Debug, PartialEq, Eq, Structural)]
pub enum SourceFormat {
    /// A triangle soup, binary or text.
    Stl,
    /// A triangle soup inside an archive.
    StlZip,
    /// The packaging format.
    ThreeMf,
    /// The grouped-geometry text format.
    Obj,
    /// The grouped-geometry text format inside an archive.
    ObjZip,
    /// A toolpath.
    Gcode,
    /// A toolpath inside an archive.
    GcodeZip,
}

/// The two families of formats, which differ in the way their models stand.
#[derive(Clone, Copy, Debug, PartialEq, Eq, Structural)]
pub enum FormatFamily {
    TriangleMesh,
    Toolpath,
}

/// An axis of rotation.
#[derive(Clone, Copy, Debug, PartialEq, Eq, Structural)]
pub enum Axis {
    X,
    Y,
}

/// A rotation about an axis by whole degrees.
#[derive(Clone, Copy, Debug, PartialEq, Eq, Structural)]
pub struct Reorientation {
    pub axis: Axis,
    pub degrees: u16,
}

/// The format that a file name selects: the one whose suffix the name ends
/// with, letter for letter. The suffixes of archives are tried before the
/// bare ones.
pub open spec fn format_of(path: Seq<u8>) -> Option<SourceFormat> {
    if ends_with(path, ".stl.zip".spec_bytes()) {
        Some(SourceFormat::StlZip)
    } else if ends_with(path, ".obj.zip".spec_bytes()) {
        Some(SourceFormat::ObjZip)
    } else if ends_with(path, ".gcode.zip".spec_bytes()) {
        Some(SourceFormat::GcodeZip)
    } else if ends_with(path, ".stl".spec_bytes()) {
        Some(SourceFormat::Stl)
    } else if ends_with(path, ".3mf".spec_bytes()) {
        Some(SourceFormat::ThreeMf)
    } else if ends_with(path, ".obj".spec_bytes()) {
        Some(SourceFormat::Obj)
    } else if ends_with(path, ".gcode".spec_bytes()) {
        Some(SourceFormat::Gcode)
    } else {
        None
    }
}

impl SourceFormat {
    /// The family of the format.
    pub open spec fn spec_family(self) -> FormatFamily {
        match self {
            SourceFormat::Gcode | SourceFormat::GcodeZip => FormatFamily::Toolpath,
            _ => FormatFamily::TriangleMesh,
        }
    }

    /// Selects the format of a file by its name.
    pub fn detect(path: &str) -> (r: Option<SourceFormat>)
        ensures
            r == format_of(path.spec_bytes()),
    {
        let name = path.as_bytes();
        if has_suffix(name, ".stl.zip".as_bytes()) {
            Some(SourceFormat::StlZip)
        } else if has_suffix(name, ".obj.zip".as_bytes()) {
            Some(SourceFormat::ObjZip)
        } else if has_suffix(name, ".gcode.zip".as_bytes()) {
            Some(SourceFormat::GcodeZip)
        } else if has_suffix(name, ".stl".as_bytes()) {
            Some(SourceFormat::Stl)
        } else if has_suffix(name, ".3mf".as_bytes()) {
            Some(SourceFormat::ThreeMf)
        } else if has_suffix(name, ".obj".as_bytes()) {
            Some(SourceFormat::Obj)
        } else if has_suffix(name, ".gcode".as_bytes()) {
            Some(SourceFormat::Gcode)
        } else {
            None
        }
    }

    /// Tells the family of the format.
    #[verifier::when_used_as_spec(spec_family)]
    pub fn family(self) -> (f: FormatFamily)
        ensures
            f == self.spec_family(),
    {
        match self {
            SourceFormat::Gcode | SourceFormat::GcodeZip => FormatFamily::Toolpath,
            _ => FormatFamily::TriangleMesh,
        }
    }
}

impl FormatFamily {
    /// The rotation that sets a model of the family upright: three quarters
    /// of a turn about X for a triangle mesh, half a turn about Y for a
    /// toolpath.
    pub open spec fn spec_reorientation(self) -> Reorientation {
        match self {
            FormatFamily::TriangleMesh => Reorientation { axis: Axis::X, degrees: 270 },
            FormatFamily::Toolpath => Reorientation { axis: Axis::Y, degrees: 180 },
        }
    }

    /// Gives the rotation that sets a model of the family upright.
    #[verifier::when_used_as_spec(spec_reorientation)]
    pub fn reorientation(self) -> (r: Reorientation)
        ensures
            r == self.spec_reorientation(),
    {
        match self {
            FormatFamily::TriangleMesh => Reorientation { axis: Axis::X, degrees: 270 },
            FormatFamily::Toolpath => Reorientation { axis: Axis::Y, degrees: 180 },
        }
    }
}

/// The byte with a capital letter of the basic alphabet made small.
pub open spec fn lower(b: u8) -> u8 {
    if 0x41 <= b <= 0x5a {
        (b + 0x20) as u8
    } else {
        b
    }
}

/// The text with its capital letters of the basic alphabet made small.
pub open spec fn lowered(s: Seq<u8>) -> Seq<u8> {
    Seq::new(s.len(), |i: int| lower(s[i]))
}

/// Tells whether `s`, with its capital letters made small, is `text`.
fn same_letters(s: &[u8], text: &[u8]) -> (r: bool)
    ensures
        r == (lowered(s@) == text@),
{
    if s.len() != text.len() {
        return false;
    }
    let mut i: usize = 0;
    while i < s.len()
        invariant
            i <= s@.len() == text@.len(),
            forall|j: int| 0 <= j < i ==> lower(s@[j]) == text@[j],
        decreases s.len() - i,
    {
        let b = s[i];
        let small = if 0x41 <= b && b <= 0x5a {
            b + 0x20
        } else {
            b
        };
        if small != text[i] {
            assert(lowered(s@)[i as int] != text@[i as int]);
            return false;
        }
        i += 1;
    }
    assert(lowered(s@) =~= text@);
    true
}

/// The encodings a thumbnail can be written in.
#[derive(Clone, Copy, Debug, PartialEq, Eq, Structural)]
pub enum Format {
    /// Lossy.
    Jpg,
    /// Lossless.
    Png,
}

impl Format {
    /// The name of the encoding, which is also the suffix of its files.
    pub open spec fn name(self) -> Seq<char> {
        match self {
            Format::Jpg => "jpg"@,
            Format::Png => "png"@,
        }
    }

    /// The encoding that a name stands for, whatever the case of its
    /// letters: `png`, `jpg`, or `jpeg` for the latter.
    pub open spec fn named(name: Seq<u8>) -> Option<Format> {
        if lowered(name) == "png".spec_bytes() {
            Some(Format::Png)
        } else if lowered(name) == "jpg".spec_bytes() || lowered(name) == "jpeg".spec_bytes() {
            Some(Format::Jpg)
        } else {
            None
        }
    }

    /// Finds the encoding that a name stands for.
    pub fn from_name(name: &str) -> (r: Option<Format>)
        ensures
            r == Format::named(name.spec_bytes()),
    {
        let bytes = name.as_bytes();
        if same_letters(bytes, "png".as_bytes()) {
            Some(Format::Png)
        } else if same_letters(bytes, "jpg".as_bytes()) || same_letters(bytes, "jpeg".as_bytes()) {
            Some(Format::Jpg)
        } else {
            None
        }
    }

    /// Gives the name of the encoding.
    pub fn to_string(&self) -> (s: String)
        ensures
            s@ == self.name(),
    {
        match self {
            Format::Jpg => String::from_str("jpg"),
            Format::Png => String::from_str("png"),
        }
    }
}

} // verus!
