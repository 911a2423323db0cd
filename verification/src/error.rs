//! The ways in which reading a file ends without a scene.

use vstd::prelude::*;
use vstd::string::StringExecFns;

verus! {

/// Why a file gave no scene. Each kind ends the work on that file.
#[derive(Clone, Debug, PartialEq, Eq)]
pub enum ParseError {
    /// The bytes could not be read, or the archive around them could not be
    /// opened.
    ReadError(String),
    /// The content was recognized but makes no sense: an unknown suffix, a
    /// toolpath without moves, text that does not decode.
    ParseError(String),
    /// The source is sound but holds no usable geometry.
    MeshConvertError(String),
}

impl ParseError {
    /// The detail that the error carries.
    pub open spec fn detail(&self) -> Seq<char> {
        match self {
            ParseError::ReadError(s) => s@,
            ParseError::ParseError(s) => s@,
            ParseError::MeshConvertError(s) => s@,
        }
    }

    /// The sentence that introduces the detail of each kind.
    pub open spec fn preamble(&self) -> Seq<char> {
        match self {
            ParseError::ReadError(_) => "Failed to read file: "@,
            ParseError::ParseError(_) => "Failed to interpret model: "@,
            ParseError::MeshConvertError(_) => "Failed to convert mesh from model: "@,
        }
    }

    /// The error as one line of text: the preamble of its kind, then its detail.
    pub fn to_string(&self) -> (text: String)
        ensures
            text@ == self.preamble() + self.detail(),
    {
        match self {
            ParseError::ReadError(s) => String::from_str("Failed to read file: ").concat(
                s.as_str(),
            ),
            ParseError::ParseError(s) => String::from_str("Failed to interpret model: ").concat(
                s.as_str(),
            ),
            ParseError::MeshConvertError(s) => String::from_str(
                "Failed to convert mesh from model: ",
            ).concat(s.as_str()),
        }
    }
}

} // verus!
