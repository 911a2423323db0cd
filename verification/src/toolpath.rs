//! The toolpath format: a list of motion commands, replayed into the points
//! of the path and cut into the segments along which material is laid.

use vstd::prelude::*;
use vstd::slice::{slice_subrange, slice_to_vec};
use vstd::string::{StringExecFns, StringSliceAdditionalSpecFns};
use vstd::utf8::valid_utf8;
use crate::decode::as_text;
use crate::error::ParseError;
use crate::mesh::{
    mesh_outcome, mesh_views, Mesh, MeshView, Point32, Positions, PositionsView,
};
use crate::text::{
    find_marker, first_marker, has_prefix, lemma_marker_from, lemma_marker_piece, lines,
    lines_from, next_line, piece_views, starts_with, ByteClass, Piece, PieceView,
};

verus! {

/// The horizontal part of a motion line, with the texts of its coordinates.
#[derive(Clone, Debug, PartialEq, Eq)]
pub enum PlanarText {
    /// The line gives no X and Y.
    Still,
    /// X and Y without an extrusion: the head travels.
    Travel { x: Vec<u8>, y: Vec<u8> },
    /// X and Y and an extrusion: the head draws.
    Extrude { x: Vec<u8>, y: Vec<u8> },
}

/// What a `PlanarText` holds.
#[verifier::ext_equal]
pub enum PlanarTextView {
    Still,
    Travel { x: Seq<u8>, y: Seq<u8> },
    Extrude { x: Seq<u8>, y: Seq<u8> },
}

impl View for PlanarText {
    type V = PlanarTextView;

    open spec fn view(&self) -> PlanarTextView {
        match self {
            PlanarText::Still => PlanarTextView::Still,
            PlanarText::Travel { x, y } => PlanarTextView::Travel { x: x@, y: y@ },
            PlanarText::Extrude { x, y } => PlanarTextView::Extrude { x: x@, y: y@ },
        }
    }
}

/// A motion line as it is written: the text of its Z, if it has one, and its
/// horizontal part.
#[derive(Clone, Debug, PartialEq, Eq)]
pub struct MotionText {
    pub z: Option<Vec<u8>>,
    pub planar: PlanarText,
}

/// What a `MotionText` holds.
#[verifier::ext_equal]
pub struct MotionTextView {
    pub z: Option<Seq<u8>>,
    pub planar: PlanarTextView,
}

impl View for MotionText {
    type V = MotionTextView;

    open spec fn view(&self) -> MotionTextView {
        MotionTextView {
            z: match self.z {
                Some(t) => Some(t@),
                None => None,
            },
            planar: self.planar@,
        }
    }
}

/// What a list of motion lines holds.
pub open spec fn motion_views(moves: Seq<MotionText>) -> Seq<MotionTextView> {
    Seq::new(moves.len(), |i: int| moves[i]@)
}

/// Whether the line is a motion line: it begins with one of the two motion
/// commands.
pub open spec fn is_motion(line: Seq<u8>) -> bool {
    starts_with(line, "G1".spec_bytes()) || starts_with(line, "G0".spec_bytes())
}

/// The marker of a height: `Z` and a plain decimal number.
pub open spec fn z_marker() -> Seq<PieceView> {
    seq![PieceView::Text("Z".spec_bytes()), PieceView::Run(ByteClass::Decimal)]
}

/// The marker of a horizontal move: `X` and a number, white space, `Y` and a
/// number.
pub open spec fn travel_marker() -> Seq<PieceView> {
    seq![
        PieceView::Text("X".spec_bytes()),
        PieceView::Run(ByteClass::Decimal),
        PieceView::Run(ByteClass::Space),
        PieceView::Text("Y".spec_bytes()),
        PieceView::Run(ByteClass::Decimal),
    ]
}

/// The marker of a horizontal move that extrudes: that of a horizontal move,
/// then white space and `E`.
pub open spec fn extrude_marker() -> Seq<PieceView> {
    travel_marker() + seq![PieceView::Run(ByteClass::Space), PieceView::Text("E".spec_bytes())]
}

/// The text of the Z of a motion line.
pub open spec fn z_text(line: Seq<u8>) -> Option<Seq<u8>> {
    match first_marker(line, z_marker()) {
        Some((at, ends)) => Some(line.subrange(ends[0], ends[1])),
        None => None,
    }
}

/// The horizontal part of a motion line: the first move that extrudes, where
/// the line has one; else its first move.
pub open spec fn planar_text(line: Seq<u8>) -> PlanarTextView {
    match first_marker(line, extrude_marker()) {
        Some((at, ends)) => PlanarTextView::Extrude {
            x: line.subrange(ends[0], ends[1]),
            y: line.subrange(ends[3], ends[4]),
        },
        None => match first_marker(line, travel_marker()) {
            Some((at, ends)) => PlanarTextView::Travel {
                x: line.subrange(ends[0], ends[1]),
                y: line.subrange(ends[3], ends[4]),
            },
            None => PlanarTextView::Still,
        },
    }
}

/// What a motion line says.
pub open spec fn motion_of(line: Seq<u8>) -> MotionTextView {
    MotionTextView { z: z_text(line), planar: planar_text(line) }
}

/// Copies the bytes `from .. to` of a line.
fn copy_range(line: &[u8], from: usize, to: usize) -> (r: Vec<u8>)
    requires
        from <= to <= line@.len(),
    ensures
        r@ == line@.subrange(from as int, to as int),
{
    slice_to_vec(slice_subrange(line, from, to))
}

/// Reads one line: what it says if it is a motion line, nothing if it is not.
pub fn scan_motion(line: &[u8]) -> (r: Option<MotionText>)
    ensures
        r is Some <==> is_motion(line@),
        r matches Some(m) ==> m@ == motion_of(line@),
{
    if !(has_prefix(line, "G1".as_bytes()) || has_prefix(line, "G0".as_bytes())) {
        return None;
    }
    let height = [Piece::Text("Z".as_bytes()), Piece::Run(ByteClass::Decimal)];
    assert(piece_views(height@) =~= z_marker());
    let z = match find_marker(line, height.as_slice()) {
        Some(found) => {
            proof {
                lemma_marker_from(line@, 0, z_marker());
                lemma_marker_piece(line@, found.at as int, z_marker(), 0);
                lemma_marker_piece(line@, found.at as int, z_marker(), 1);
            }
            Some(copy_range(line, found.ends[0], found.ends[1]))
        },
        None => None,
    };
    let drawing = [
        Piece::Text("X".as_bytes()),
        Piece::Run(ByteClass::Decimal),
        Piece::Run(ByteClass::Space),
        Piece::Text("Y".as_bytes()),
        Piece::Run(ByteClass::Decimal),
        Piece::Run(ByteClass::Space),
        Piece::Text("E".as_bytes()),
    ];
    assert(piece_views(drawing@) =~= extrude_marker());
    let moving = [
        Piece::Text("X".as_bytes()),
        Piece::Run(ByteClass::Decimal),
        Piece::Run(ByteClass::Space),
        Piece::Text("Y".as_bytes()),
        Piece::Run(ByteClass::Decimal),
    ];
    assert(piece_views(moving@) =~= travel_marker());
    let planar = match find_marker(line, drawing.as_slice()) {
        Some(found) => {
            proof {
                lemma_marker_from(line@, 0, extrude_marker());
                lemma_marker_piece(line@, found.at as int, extrude_marker(), 0);
                lemma_marker_piece(line@, found.at as int, extrude_marker(), 1);
                lemma_marker_piece(line@, found.at as int, extrude_marker(), 2);
                lemma_marker_piece(line@, found.at as int, extrude_marker(), 3);
                lemma_marker_piece(line@, found.at as int, extrude_marker(), 4);
            }
            PlanarText::Extrude {
                x: copy_range(line, found.ends[0], found.ends[1]),
                y: copy_range(line, found.ends[3], found.ends[4]),
            }
        },
        None => match find_marker(line, moving.as_slice()) {
            Some(found) => {
                proof {
                    lemma_marker_from(line@, 0, travel_marker());
                    lemma_marker_piece(line@, found.at as int, travel_marker(), 0);
                    lemma_marker_piece(line@, found.at as int, travel_marker(), 1);
                    lemma_marker_piece(line@, found.at as int, travel_marker(), 2);
                    lemma_marker_piece(line@, found.at as int, travel_marker(), 3);
                    lemma_marker_piece(line@, found.at as int, travel_marker(), 4);
                }
                PlanarText::Travel {
                    x: copy_range(line, found.ends[0], found.ends[1]),
                    y: copy_range(line, found.ends[3], found.ends[4]),
                }
            },
            None => PlanarText::Still,
        },
    };
    Some(MotionText { z, planar })
}

/// How the scan of a toolpath ended.
#[derive(Clone, Copy, Debug, PartialEq, Eq, Structural)]
pub enum Ending {
    /// At the end of the text, or at the first line that is no motion line.
    Stopped,
    /// At a line that is not well-formed text.
    Undecodable,
}

/// The motion lines of a toolpath, as far as it was scanned, and how the scan
/// ended.
#[derive(Clone, Debug, PartialEq, Eq)]
pub struct ToolpathScan {
    pub moves: Vec<MotionText>,
    pub ending: Ending,
}

/// The motion lines that the scan takes from the lines of a text: all the
/// lines up to the first that is not well-formed text or is no motion line.
pub open spec fn leading_moves(lines: Seq<Seq<u8>>) -> Seq<MotionTextView>
    decreases lines.len(),
{
    if lines.len() == 0 || !valid_utf8(lines[0]) || !is_motion(lines[0]) {
        Seq::empty()
    } else {
        seq![motion_of(lines[0])] + leading_moves(lines.skip(1))
    }
}

/// How the scan of the lines ends.
pub open spec fn scan_ending(lines: Seq<Seq<u8>>) -> Ending
    decreases lines.len(),
{
    if lines.len() == 0 {
        Ending::Stopped
    } else if !valid_utf8(lines[0]) {
        Ending::Undecodable
    } else if !is_motion(lines[0]) {
        Ending::Stopped
    } else {
        scan_ending(lines.skip(1))
    }
}

/// Scans a toolpath: takes its motion lines, one after another, and stops at
/// the first line that is no motion line or is not well-formed text.
pub fn scan_toolpath(text: &[u8]) -> (scan: ToolpathScan)
    ensures
        motion_views(scan.moves@) == leading_moves(lines(text@)),
        scan.ending == scan_ending(lines(text@)),
{
    let mut moves: Vec<MotionText> = Vec::new();
    let mut at: usize = 0;
    assert(motion_views(moves@) + leading_moves(lines_from(text@, 0)) =~= leading_moves(
        lines(text@),
    ));
    while at < text.len()
        invariant
            at <= text@.len(),
            motion_views(moves@) + leading_moves(lines_from(text@, at as int)) == leading_moves(
                lines(text@),
            ),
            scan_ending(lines_from(text@, at as int)) == scan_ending(lines(text@)),
        decreases text.len() - at,
    {
        let (end, next) = next_line(text, at);
        let line = slice_subrange(text, at, end);
        let ghost rest = lines_from(text@, at as int);
        let ghost before = motion_views(moves@);
        assert(rest[0] == line@);
        assert(rest.skip(1) =~= lines_from(text@, next as int));
        if as_text(line).is_none() {
            assert(before + Seq::<MotionTextView>::empty() =~= before);
            return ToolpathScan { moves, ending: Ending::Undecodable };
        }
        match scan_motion(line) {
            None => {
                assert(before + Seq::<MotionTextView>::empty() =~= before);
                return ToolpathScan { moves, ending: Ending::Stopped };
            },
            Some(m) => {
                moves.push(m);
                assert(motion_views(moves@) =~= before + seq![motion_of(line@)]);
                assert(motion_views(moves@) + leading_moves(rest.skip(1)) =~= before
                    + leading_moves(rest));
            },
        }
        at = next;
    }
    assert(motion_views(moves@) + Seq::<MotionTextView>::empty() =~= motion_views(moves@));
    ToolpathScan { moves, ending: Ending::Stopped }
}

/// The horizontal part of a motion line, with the values of its coordinates
/// as single-precision bit patterns. A coordinate whose text writes no number
/// is absent.
#[derive(Clone, Copy, Debug, PartialEq, Eq)]
pub enum Planar {
    Still,
    Travel { x: Option<u32>, y: Option<u32> },
    Extrude { x: Option<u32>, y: Option<u32> },
}

/// A motion line by its values: its Z, if the line has one, and its
/// horizontal part. A Z whose text writes no number is `Some(None)`.
#[derive(Clone, Copy, Debug, PartialEq, Eq)]
pub struct Motion {
    pub z: Option<Option<u32>>,
    pub planar: Planar,
}

impl Motion {
    /// Whether every coordinate of the line has a value.
    pub open spec fn readable(self) -> bool {
        &&& self.z != Some(None::<u32>)
        &&& match self.planar {
            Planar::Still => true,
            Planar::Travel { x, y } => x is Some && y is Some,
            Planar::Extrude { x, y } => x is Some && y is Some,
        }
    }
}

/// A point of the path, in model space, and whether material is laid on the
/// way to it.
#[derive(Clone, Copy, Debug, PartialEq, Eq, Structural)]
pub struct ToolpathPoint {
    pub position: Point32,
    pub drawn: bool,
}

/// Where the head stands, in the toolpath's own axes, and whether the head
/// got there without drawing.
#[derive(Clone, Copy, Debug, PartialEq, Eq, Structural)]
pub struct Head {
    pub x: u32,
    pub y: u32,
    pub z: u32,
    pub unsafe_position: bool,
}

/// The bit pattern of the number with the opposite sign.
pub open spec fn negated(bits: u32) -> u32 {
    bits ^ 0x8000_0000u32
}

/// The place in model space of a place of the toolpath: X is mirrored, and
/// the toolpath's Z is the model's Y.
pub open spec fn model_point(x: u32, y: u32, z: u32) -> Point32 {
    Point32 { x: negated(x), y: z, z: y }
}

impl Head {
    /// The head before the first line: at the origin, where nothing was
    /// drawn up to. So the first line that extrudes lays an anchor at the
    /// origin, at the height of that line, and draws from there.
    pub open spec fn start() -> Head {
        Head { x: 0, y: 0, z: 0, unsafe_position: true }
    }

    /// The head after a readable motion line.
    pub open spec fn after(self, motion: Motion) -> Head {
        let z = match motion.z {
            Some(Some(v)) => v,
            _ => self.z,
        };
        match motion.planar {
            Planar::Still => Head { z, ..self },
            Planar::Travel { x, y } => Head { x: x->0, y: y->0, z, unsafe_position: true },
            Planar::Extrude { x, y } => Head { x: x->0, y: y->0, z, unsafe_position: false },
        }
    }

    /// The points that a readable motion line adds to the path: none unless
    /// the line extrudes; then the place the line moves to, drawn, and before
    /// it, where the head had travelled there, the place it leaves, not
    /// drawn. The Z of the line holds for both.
    pub open spec fn points(self, motion: Motion) -> Seq<ToolpathPoint> {
        let z = match motion.z {
            Some(Some(v)) => v,
            _ => self.z,
        };
        match motion.planar {
            Planar::Extrude { x, y } => {
                let target = ToolpathPoint { position: model_point(x->0, y->0, z), drawn: true };
                if self.unsafe_position {
                    seq![
                        ToolpathPoint { position: model_point(self.x, self.y, z), drawn: false },
                        target,
                    ]
                } else {
                    seq![target]
                }
            },
            _ => Seq::empty(),
        }
    }

    /// Takes one readable motion line: appends its points to the path and
    /// gives the head after it.
    pub fn step(self, motion: Motion, path: &mut Vec<ToolpathPoint>) -> (next: Head)
        requires
            motion.readable(),
        ensures
            next == self.after(motion),
            final(path)@ == old(path)@ + self.points(motion),
    {
        let z = match motion.z {
            Some(Some(v)) => v,
            _ => self.z,
        };
        let ghost before = path@;
        match motion.planar {
            Planar::Still => {
                assert(path@ =~= before + self.points(motion));
                Head { x: self.x, y: self.y, z, unsafe_position: self.unsafe_position }
            },
            Planar::Travel { x: Some(x), y: Some(y) } => {
                assert(path@ =~= before + self.points(motion));
                Head { x, y, z, unsafe_position: true }
            },
            Planar::Extrude { x: Some(x), y: Some(y) } => {
                if self.unsafe_position {
                    path.push(
                        ToolpathPoint { position: to_model(self.x, self.y, z), drawn: false },
                    );
                }
                path.push(ToolpathPoint { position: to_model(x, y, z), drawn: true });
                assert(path@ =~= before + self.points(motion));
                Head { x, y, z, unsafe_position: false }
            },
            _ => {
                assert(false);
                self
            },
        }
    }
}

/// Gives the place in model space of a place of the toolpath.
pub fn to_model(x: u32, y: u32, z: u32) -> (p: Point32)
    ensures
        p == model_point(x, y, z),
{
    Point32 { x: x ^ 0x8000_0000u32, y: z, z: y }
}

/// The path that readable motion lines trace from a given head on.
pub open spec fn traced(head: Head, motions: Seq<Motion>) -> Seq<ToolpathPoint>
    decreases motions.len(),
{
    if motions.len() == 0 {
        Seq::empty()
    } else {
        head.points(motions[0]) + traced(head.after(motions[0]), motions.skip(1))
    }
}

/// Whether every motion line is readable.
pub open spec fn all_readable(motions: Seq<Motion>) -> bool {
    forall|i: int| 0 <= i < motions.len() ==> (#[trigger] motions[i]).readable()
}

/// Replays the motion lines of a scanned toolpath into the points of its
/// path.
///
/// A line with a coordinate that writes no number ends the replay with a
/// `ParseError`; after that, a scan that ended at undecodable text ends it
/// with a `ReadError`; and a path of fewer than three points is a
/// `ParseError`.
pub fn replay(motions: &Vec<Motion>, ending: Ending) -> (r: Result<Vec<ToolpathPoint>, ParseError>)
    ensures
        r is Ok <==> all_readable(motions@) && ending == Ending::Stopped && traced(
            Head::start(),
            motions@,
        ).len() >= 3,
        r matches Ok(path) ==> path@ == traced(Head::start(), motions@),
        r matches Err(e) ==> (e is ReadError <==> all_readable(motions@) && ending
            == Ending::Undecodable) && !(e is MeshConvertError),
{
    let mut path: Vec<ToolpathPoint> = Vec::new();
    let mut head = Head { x: 0, y: 0, z: 0, unsafe_position: true };
    let mut k: usize = 0;
    assert(motions@.skip(0) =~= motions@);
    assert(path@ + traced(head, motions@.skip(0)) =~= traced(Head::start(), motions@));
    while k < motions.len()
        invariant
            k <= motions@.len(),
            forall|i: int| 0 <= i < k ==> (#[trigger] motions@[i]).readable(),
            path@ + traced(head, motions@.skip(k as int)) == traced(Head::start(), motions@),
        decreases motions.len() - k,
    {
        let motion = motions[k];
        let ghost tail = motions@.skip(k as int);
        let ghost before = path@;
        assert(tail[0] == motion);
        assert(tail.skip(1) =~= motions@.skip(k + 1));
        let readable = match motion.z {
            Some(None) => false,
            _ => true,
        } && match motion.planar {
            Planar::Still => true,
            Planar::Travel { x, y } => x.is_some() && y.is_some(),
            Planar::Extrude { x, y } => x.is_some() && y.is_some(),
        };
        if !readable {
            return Err(ParseError::ParseError(String::from_str("invalid float literal")));
        }
        let next = head.step(motion, &mut path);
        assert(path@ + traced(next, tail.skip(1)) =~= before + traced(head, tail));
        head = next;
        k += 1;
    }
    assert(motions@.skip(k as int) =~= Seq::empty());
    assert(path@ + Seq::<ToolpathPoint>::empty() =~= path@);
    match ending {
        Ending::Undecodable => {
            return Err(
                ParseError::ReadError(String::from_str("stream did not contain valid UTF-8")),
            );
        },
        Ending::Stopped => {},
    }
    if path.len() <= 2 {
        return Err(
            ParseError::ParseError(String::from_str("Gcode file contains no move instructions")),
        );
    }
    Ok(path)
}

/// The segments of the path along which material is laid: each pair of
/// neighbouring points whose second point is drawn, in the order of the path.
pub open spec fn drawn_segments(path: Seq<ToolpathPoint>) -> Seq<(Point32, Point32)>
    decreases path.len(),
{
    if path.len() < 2 {
        Seq::empty()
    } else {
        let before = drawn_segments(path.drop_last());
        if path.last().drawn {
            before.push((path[path.len() - 2].position, path.last().position))
        } else {
            before
        }
    }
}

/// Whether a segment joins point `i` of the path to the next, and that next
/// point is drawn.
pub open spec fn is_drawn_step(path: Seq<ToolpathPoint>, i: int, segment: (Point32, Point32)) -> bool {
    &&& 0 <= i < path.len() - 1
    &&& path[i + 1].drawn
    &&& segment == (path[i].position, path[i + 1].position)
}

/// No segment bridges a gap: every segment joins two neighbouring points of
/// the path of which the second is drawn.
pub proof fn lemma_segments_end_drawn(path: Seq<ToolpathPoint>, k: int)
    requires
        0 <= k < drawn_segments(path).len(),
    ensures
        exists|i: int| is_drawn_step(path, i, drawn_segments(path)[k]),
    decreases path.len(),
{
    let before = drawn_segments(path.drop_last());
    if k < before.len() {
        lemma_segments_end_drawn(path.drop_last(), k);
        let i = choose|i: int| is_drawn_step(path.drop_last(), i, before[k]);
        assert(is_drawn_step(path, i, drawn_segments(path)[k]));
    } else {
        assert(is_drawn_step(path, path.len() - 2, drawn_segments(path)[k]));
    }
}

/// Cuts the path into the segments along which material is laid. No segment
/// leads to a point that is not drawn, so none bridges a gap that the head
/// travelled.
pub fn tube_segments(path: &Vec<ToolpathPoint>) -> (segments: Vec<(Point32, Point32)>)
    ensures
        segments@ == drawn_segments(path@),
{
    let mut segments: Vec<(Point32, Point32)> = Vec::new();
    if path.len() < 2 {
        return segments;
    }
    let mut i: usize = 1;
    assert(drawn_segments(path@.take(1)) =~= Seq::empty());
    while i < path.len()
        invariant
            1 <= i <= path@.len(),
            segments@ == drawn_segments(path@.take(i as int)),
        decreases path.len() - i,
    {
        assert(path@.take(i + 1).drop_last() =~= path@.take(i as int));
        if path[i].drawn {
            segments.push((path[i - 1].position, path[i].position));
        }
        i += 1;
    }
    assert(path@.take(i as int) =~= path@);
    segments
}

/// Into how many sides the cross-section of a tube is divided: three for a
/// path of fewer than a million points, two for a longer one.
pub open spec fn subdivisions_for(points: nat) -> u32 {
    if points < 1_000_000 {
        3
    } else {
        2
    }
}

/// Chooses the number of sides of a tube's cross-section for a path of so
/// many points.
pub fn angle_subdivisions(points: usize) -> (n: u32)
    ensures
        n == subdivisions_for(points as nat),
{
    if points < 1_000_000 {
        3
    } else {
        2
    }
}

/// Whether a mesh can stand for one tube: it keeps the mesh invariant and
/// its vertices are in single precision.
pub open spec fn is_tube(mesh: MeshView) -> bool {
    mesh.positions is Single && mesh.wf()
}

/// The vertices of the tubes, tube after tube.
pub open spec fn joined_positions(tubes: Seq<MeshView>) -> Seq<Point32>
    decreases tubes.len(),
{
    if tubes.len() == 0 {
        Seq::empty()
    } else {
        joined_positions(tubes.drop_last()) + tubes.last().positions->Single_0
    }
}

/// The indices, each raised by `by`.
pub open spec fn shifted(indices: Seq<u32>, by: nat) -> Seq<u32> {
    Seq::new(indices.len(), |k: int| (indices[k] + by) as u32)
}

/// The indices of the tubes, tube after tube, those of each tube raised by
/// the number of vertices of the tubes before it.
pub open spec fn joined_indices(tubes: Seq<MeshView>) -> Seq<u32>
    decreases tubes.len(),
{
    if tubes.len() == 0 {
        Seq::empty()
    } else {
        joined_indices(tubes.drop_last()) + shifted(
            tubes.last().indices,
            joined_positions(tubes.drop_last()).len(),
        )
    }
}

/// Whether the tubes can be joined into one mesh: each is a tube, and an
/// index can name every vertex of them all.
pub open spec fn joinable(tubes: Seq<MeshView>) -> bool {
    &&& forall|i: int| 0 <= i < tubes.len() ==> is_tube(#[trigger] tubes[i])
    &&& joined_positions(tubes).len() <= u32::MAX + 1
}

/// The first tubes have no more vertices than all of them.
proof fn lemma_joined_grows(tubes: Seq<MeshView>, n: int)
    requires
        0 <= n <= tubes.len(),
    ensures
        joined_positions(tubes.take(n)).len() <= joined_positions(tubes).len(),
    decreases tubes.len() - n,
{
    if n == tubes.len() {
        assert(tubes.take(n) =~= tubes);
    } else {
        lemma_joined_grows(tubes, n + 1);
        assert(tubes.take(n + 1).drop_last() =~= tubes.take(n));
    }
}

/// Joins the tubes of a path into one mesh: the vertices of all the tubes, in
/// order, and the indices of each tube raised by the number of vertices
/// before it.
pub fn join_tubes(tubes: &Vec<Mesh>) -> (r: Result<Mesh, ParseError>)
    ensures
        r is Ok <==> joinable(mesh_views(tubes@)),
        r matches Ok(m) ==> m.wf() && m@ == (MeshView {
            positions: PositionsView::Single(joined_positions(mesh_views(tubes@))),
            indices: joined_indices(mesh_views(tubes@)),
        }),
        r matches Err(e) ==> e is MeshConvertError,
{
    let ghost all = mesh_views(tubes@);
    let mut positions: Vec<Point32> = Vec::new();
    let mut indices: Vec<u32> = Vec::new();
    let mut t: usize = 0;
    assert(all.take(0) =~= Seq::empty());
    while t < tubes.len()
        invariant
            t <= tubes@.len(),
            all == mesh_views(tubes@),
            forall|i: int| 0 <= i < t ==> is_tube(#[trigger] all[i]),
            positions@ == joined_positions(all.take(t as int)),
            indices@ == joined_indices(all.take(t as int)),
            positions@.len() <= u32::MAX + 1,
            indices@.len() % 3 == 0,
            forall|k: int| 0 <= k < indices@.len() ==> (#[trigger] indices@[k]) < positions@.len(),
        decreases tubes.len() - t,
    {
        let tube = &tubes[t];
        assert(all[t as int] == tube@);
        assert(all.take(t + 1).drop_last() =~= all.take(t as int));
        assert(all.take(t + 1).last() == tube@);
        let own = match &tube.positions {
            Positions::Single(own) => own,
            Positions::Double(_) => {
                return Err(
                    ParseError::MeshConvertError(
                        String::from_str("A tube is not in single precision"),
                    ),
                );
            },
        };
        if !tube.is_wf() {
            return Err(
                ParseError::MeshConvertError(String::from_str("A tube is not a sound mesh")),
            );
        }
        let base = positions.len();
        if own.len() > 0 && (base > u32::MAX as usize || own.len() - 1 > u32::MAX as usize - base) {
            proof {
                lemma_joined_grows(all, t + 1);
            }
            return Err(
                ParseError::MeshConvertError(
                    String::from_str("The path has more vertices than a mesh can index"),
                ),
            );
        }
        let mut i: usize = 0;
        while i < own.len()
            invariant
                i <= own@.len(),
                base + own@.len() <= u32::MAX + 1,
                positions@ == joined_positions(all.take(t as int)) + own@.take(i as int),
                positions@.len() == base + i,
            decreases own.len() - i,
        {
            positions.push(own[i]);
            assert(own@.take(i + 1) =~= own@.take(i as int).push(own@[i as int]));
            i += 1;
        }
        assert(own@.take(i as int) =~= own@);
        let ghost before = indices@;
        let mut k: usize = 0;
        while k < tube.indices.len()
            invariant
                k <= tube.indices@.len(),
                tube.wf(),
                tube@.positions == PositionsView::Single(own@),
                base + own@.len() <= u32::MAX + 1,
                positions@.len() == base + own@.len(),
                indices@.len() == before.len() + k,
                forall|j: int| 0 <= j < before.len() ==> indices@[j] == before[j],
                forall|j: int|
                    0 <= j < k ==> indices@[before.len() + j] == (tube.indices@[j] + base) as u32,
                forall|j: int| 0 <= j < before.len() ==> (#[trigger] before[j]) < base,
                forall|j: int| 0 <= j < indices@.len() ==> (#[trigger] indices@[j]) < positions@.len(),
            decreases tube.indices.len() - k,
        {
            let index = tube.indices[k];
            assert(tube@.indices[k as int] < tube@.positions.len());
            indices.push(index + base as u32);
            k += 1;
        }
        assert(indices@ =~= before + shifted(tube@.indices, base as nat));
        t += 1;
    }
    assert(all.take(t as int) =~= all);
    Ok(Mesh { positions: Positions::Single(positions), indices })
}

/// How many points of the path, the first apart, are drawn.
pub open spec fn drawn_count(path: Seq<ToolpathPoint>) -> nat
    decreases path.len(),
{
    if path.len() < 2 {
        0
    } else if path.last().drawn {
        drawn_count(path.drop_last()) + 1
    } else {
        drawn_count(path.drop_last())
    }
}

/// There is one segment for each drawn point after the first, and no other.
pub proof fn lemma_one_segment_per_drawn_point(path: Seq<ToolpathPoint>)
    ensures
        drawn_segments(path).len() == drawn_count(path),
    decreases path.len(),
{
    if path.len() >= 2 {
        lemma_one_segment_per_drawn_point(path.drop_last());
    }
}

/// Whether every tube has so many vertices and so many indices.
pub open spec fn uniform(tubes: Seq<MeshView>, vertices: nat, indices: nat) -> bool {
    forall|i: int|
        0 <= i < tubes.len() ==> (#[trigger] tubes[i]).positions.len() == vertices
            && tubes[i].indices.len() == indices
}

/// Tubes of one size join to a mesh of as many times that size as there are
/// tubes.
pub proof fn lemma_uniform_tubes_join(tubes: Seq<MeshView>, vertices: nat, indices: nat)
    requires
        uniform(tubes, vertices, indices),
        forall|i: int| 0 <= i < tubes.len() ==> is_tube(#[trigger] tubes[i]),
    ensures
        joined_positions(tubes).len() == tubes.len() * vertices,
        joined_indices(tubes).len() == tubes.len() * indices,
    decreases tubes.len(),
{
    if tubes.len() > 0 {
        let before = tubes.drop_last();
        assert forall|i: int| 0 <= i < before.len() implies is_tube(#[trigger] before[i])
            && before[i].positions.len() == vertices && before[i].indices.len() == indices by {
            assert(before[i] == tubes[i]);
        }
        lemma_uniform_tubes_join(before, vertices, indices);
        assert(is_tube(tubes[tubes.len() - 1]));
        assert(tubes.last().positions.len() == vertices);
        assert(tubes.len() * vertices == before.len() * vertices + vertices) by (nonlinear_arith)
            requires
                tubes.len() == before.len() + 1,
        ;
        assert(tubes.len() * indices == before.len() * indices + indices) by (nonlinear_arith)
            requires
                tubes.len() == before.len() + 1,
        ;
        assert(tubes.last().positions->Single_0.len() == vertices);
    } else {
        assert(tubes.len() * vertices == 0 && tubes.len() * indices == 0) by (nonlinear_arith)
            requires
                tubes.len() == 0,
        ;
    }
}

/// Whether `r` is the mesh of a path whose tubes the caller has made: the
/// tubes joined, where there is exactly one tube for each segment along
/// which material is laid and the tubes can be joined; else a
/// `MeshConvertError`.
pub open spec fn is_toolpath_mesh(
    path: Seq<ToolpathPoint>,
    tubes: Seq<MeshView>,
    r: Result<MeshView, ParseError>,
) -> bool {
    &&& r is Ok <==> tubes.len() == drawn_segments(path).len() && joinable(tubes)
    &&& r matches Ok(m) ==> m.wf() && m == (MeshView {
        positions: PositionsView::Single(joined_positions(tubes)),
        indices: joined_indices(tubes),
    })
    &&& r matches Err(e) ==> e is MeshConvertError
}

/// Builds the mesh of a path from the tubes that the caller has made for its
/// segments, tube `k` for segment `k` of `tube_segments`. A list of tubes
/// that is not as long as the list of segments is refused: the mesh has one
/// tube for each drawn point after the first, and none across a gap.
pub fn toolpath_mesh(path: &Vec<ToolpathPoint>, tubes: &Vec<Mesh>) -> (r: Result<Mesh, ParseError>)
    ensures
        is_toolpath_mesh(path@, mesh_views(tubes@), mesh_outcome(r)),
{
    let segments = tube_segments(path);
    if tubes.len() != segments.len() {
        return Err(
            ParseError::MeshConvertError(
                String::from_str("The path has not one tube for each drawn segment"),
            ),
        );
    }
    join_tubes(tubes)
}

/// The size of the mesh of a path: with one tube for each segment and every
/// tube of `vertices` vertices and `indices` indices, the mesh has that
/// many vertices and indices for each drawn point of the path after the
/// first.
pub proof fn lemma_toolpath_mesh_size(
    path: Seq<ToolpathPoint>,
    tubes: Seq<MeshView>,
    vertices: nat,
    indices: nat,
    mesh: MeshView,
)
    requires
        is_toolpath_mesh(path, tubes, Ok(mesh)),
        uniform(tubes, vertices, indices),
    ensures
        mesh.positions.len() == drawn_count(path) * vertices,
        mesh.indices.len() == drawn_count(path) * indices,
{
    lemma_one_segment_per_drawn_point(path);
    lemma_uniform_tubes_join(tubes, vertices, indices);
}

} // verus!
