//! Reads 3D models and printer toolpaths into one normalized scene description:
//! a list of indexed triangle meshes, each with a placement and an optional
//! flat colour.
//!
//! The crate never computes with floating-point numbers. Every coordinate is
//! carried as the IEEE-754 bit pattern of the number, so geometry passes
//! through the readers unchanged and a caller turns the patterns back into
//! numbers when it renders.

pub mod decode;
pub mod error;
pub mod format;
pub mod mesh;
pub mod packaging;
pub mod parse;
pub mod plan;
pub mod slicer;
pub mod soup;
pub mod text;
pub mod thumbnail;
pub mod text_mesh;
pub mod toolpath;

pub use error::ParseError;
pub use format::Format;
pub use mesh::{MeshWithTransform, ParseResult};
pub use parse::parse_file;
