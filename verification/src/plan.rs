//! The course of one thumbnail: whether to take the picture that a file
//! carries or to render its geometry, and what to do when one of them fails.
//! The caller does the work; this module decides what work comes next.

use vstd::prelude::*;
use crate::format::SourceFormat;

verus! {

/// What the caller prefers where a file carries a picture of its own.
#[derive(Clone, Copy, Debug, PartialEq, Eq, Structural)]
pub struct Preferences {
    /// Take the picture of a package rather than render the package.
    pub prefer_3mf_thumbnail: bool,
    /// Take the picture of a toolpath rather than render the toolpath.
    pub prefer_gcode_thumbnail: bool,
    /// Take the picture of a package where the package cannot be rendered.
    pub fallback_3mf_thumbnail: bool,
}

/// The work that the caller is asked to do.
#[derive(Clone, Copy, Debug, PartialEq, Eq, Structural)]
pub enum Action {
    /// Take the picture that the package carries.
    ExtractPackageThumbnail,
    /// Take the largest picture that the toolpath carries.
    ExtractToolpathThumbnail,
    /// Take the largest picture that the toolpath in the archive carries.
    ExtractPackedToolpathThumbnail,
    /// Read the geometry and render it.
    RenderGeometry,
    /// Nothing more: the thumbnail is made.
    Finish,
    /// Nothing more: report the error of reading the geometry.
    FailWithGeometryError,
    /// Nothing more: report the error of taking the picture.
    FailWithThumbnailError,
}

/// Which work the caller is doing.
#[derive(Clone, Copy, Debug, PartialEq, Eq, Structural)]
pub enum Stage {
    /// Taking the picture that was preferred.
    Preferred,
    /// Reading and rendering the geometry.
    Geometry,
    /// Taking the picture because the geometry failed.
    Fallback,
    /// Nothing: the course has ended.
    Done,
}

impl Action {
    /// Whether the action ends the course.
    pub open spec fn is_final(self) -> bool {
        self == Action::Finish || self == Action::FailWithGeometryError || self
            == Action::FailWithThumbnailError
    }
}

/// The picture that is preferred to the geometry of a file of this format,
/// if one is.
pub open spec fn preferred(prefs: Preferences, format: Option<SourceFormat>) -> Option<Action> {
    if prefs.prefer_3mf_thumbnail && format == Some(SourceFormat::ThreeMf) {
        Some(Action::ExtractPackageThumbnail)
    } else if prefs.prefer_gcode_thumbnail && format == Some(SourceFormat::Gcode) {
        Some(Action::ExtractToolpathThumbnail)
    } else if prefs.prefer_gcode_thumbnail && format == Some(SourceFormat::GcodeZip) {
        Some(Action::ExtractPackedToolpathThumbnail)
    } else {
        None
    }
}

/// Whether the picture of the file stands in for geometry that failed: the
/// file is a package, the caller asked for it, and the picture was not
/// preferred and tried already.
pub open spec fn falls_back(prefs: Preferences, format: Option<SourceFormat>) -> bool {
    prefs.fallback_3mf_thumbnail && format == Some(SourceFormat::ThreeMf)
        && !prefs.prefer_3mf_thumbnail
}

/// How the course begins: with the preferred picture, or with the geometry.
pub open spec fn first_step(prefs: Preferences, format: Option<SourceFormat>) -> (Stage, Action) {
    match preferred(prefs, format) {
        Some(action) => (Stage::Preferred, action),
        None => (Stage::Geometry, Action::RenderGeometry),
    }
}

/// How the course goes on once the work of a stage has succeeded or failed.
///
/// A picture that was preferred and failed leaves the geometry to render.
/// Geometry that fails leaves the picture of a package to fall back on,
/// where the caller asked for that; else its error is the outcome. A
/// fallback that fails gives its own error as the outcome.
pub open spec fn next_step(
    prefs: Preferences,
    format: Option<SourceFormat>,
    stage: Stage,
    succeeded: bool,
) -> (Stage, Action) {
    match stage {
        Stage::Done => (Stage::Done, Action::Finish),
        _ if succeeded => (Stage::Done, Action::Finish),
        Stage::Preferred => (Stage::Geometry, Action::RenderGeometry),
        Stage::Geometry => if falls_back(prefs, format) {
            (Stage::Fallback, Action::ExtractPackageThumbnail)
        } else {
            (Stage::Done, Action::FailWithGeometryError)
        },
        Stage::Fallback => (Stage::Done, Action::FailWithThumbnailError),
    }
}

/// Begins the course of a thumbnail for a file of this format.
pub fn begin(prefs: Preferences, format: Option<SourceFormat>) -> (r: (Stage, Action))
    ensures
        r == first_step(prefs, format),
{
    match format {
        Some(SourceFormat::ThreeMf) if prefs.prefer_3mf_thumbnail => (
            Stage::Preferred,
            Action::ExtractPackageThumbnail,
        ),
        Some(SourceFormat::Gcode) if prefs.prefer_gcode_thumbnail => (
            Stage::Preferred,
            Action::ExtractToolpathThumbnail,
        ),
        Some(SourceFormat::GcodeZip) if prefs.prefer_gcode_thumbnail => (
            Stage::Preferred,
            Action::ExtractPackedToolpathThumbnail,
        ),
        _ => (Stage::Geometry, Action::RenderGeometry),
    }
}

/// Goes on with the course once the work of a stage has succeeded or failed.
pub fn proceed(prefs: Preferences, format: Option<SourceFormat>, stage: Stage, succeeded: bool) -> (r:
    (Stage, Action))
    ensures
        r == next_step(prefs, format, stage, succeeded),
{
    match stage {
        Stage::Done => (Stage::Done, Action::Finish),
        _ if succeeded => (Stage::Done, Action::Finish),
        Stage::Preferred => (Stage::Geometry, Action::RenderGeometry),
        Stage::Geometry => {
            let package = match format {
                Some(SourceFormat::ThreeMf) => true,
                _ => false,
            };
            if prefs.fallback_3mf_thumbnail && package && !prefs.prefer_3mf_thumbnail {
                (Stage::Fallback, Action::ExtractPackageThumbnail)
            } else {
                (Stage::Done, Action::FailWithGeometryError)
            }
        },
        Stage::Fallback => (Stage::Done, Action::FailWithThumbnailError),
    }
}

/// Every course ends: whatever succeeds and whatever fails, the third answer
/// at the latest is final, and no picture is tried twice.
pub proof fn lemma_course_ends(
    prefs: Preferences,
    format: Option<SourceFormat>,
    first: bool,
    second: bool,
    third: bool,
)
    ensures
        ({
            let a = first_step(prefs, format);
            let b = next_step(prefs, format, a.0, first);
            let c = next_step(prefs, format, b.0, second);
            let d = next_step(prefs, format, c.0, third);
            &&& !a.1.is_final()
            &&& b.1.is_final() || c.1.is_final() || d.1.is_final()
            &&& a.0 == Stage::Preferred ==> !(c.1 == Action::ExtractPackageThumbnail)
        }),
{
}

/// How many images are made of one file: as many as asked for, and one at
/// least.
pub open spec fn image_count(asked: u32) -> u32 {
    if asked < 1 {
        1
    } else {
        asked
    }
}

/// Gives the number of images that are made of one file.
pub fn images_per_file(asked: u32) -> (n: u32)
    ensures
        n == image_count(asked),
{
    if asked < 1 {
        1
    } else {
        asked
    }
}

/// Whether the single-precision bit pattern stands for a number other than
/// zero.
pub open spec fn is_nonzero(bits: u32) -> bool {
    bits & 0x7fff_ffffu32 != 0
}

/// The azimuth of the first image, as a single-precision bit pattern: the
/// caller's, unless several images are made of the file; these go round the
/// model from azimuth zero.
pub open spec fn first_azimuth(images: u32, azimuth: u32) -> u32 {
    if images > 1 && is_nonzero(azimuth) {
        0
    } else {
        azimuth
    }
}

/// Gives the azimuth of the first image.
pub fn starting_azimuth(images: u32, azimuth: u32) -> (bits: u32)
    ensures
        bits == first_azimuth(images, azimuth),
{
    if images > 1 && (azimuth & 0x7fff_ffffu32) != 0 {
        0
    } else {
        azimuth
    }
}

} // verus!
