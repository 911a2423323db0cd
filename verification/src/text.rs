//! Byte-level text: the classes of bytes, fixed texts inside a line, runs of
//! bytes of one class, decimal numbers and the lines of a text.

use vstd::prelude::*;
use vstd::slice::slice_subrange;

verus! {

/// A kind of byte that a run is made of.
#[derive(Clone, Copy, Debug, PartialEq, Eq, Structural)]
pub enum ByteClass {
    /// `0` to `9`.
    Digit,
    /// A digit or a full stop: what a plain decimal number is written with.
    Decimal,
    /// `0` to `9`, `a` to `f`, `A` to `F`.
    Hex,
    /// Space, tab, line feed, vertical tab, form feed, carriage return.
    Space,
}

/// Whether the byte is a decimal digit.
pub open spec fn is_digit(b: u8) -> bool {
    0x30 <= b <= 0x39
}

/// The value of a hexadecimal digit, if the byte is one.
pub open spec fn hex_value(b: u8) -> Option<u8> {
    if 0x30 <= b <= 0x39 {
        Some((b - 0x30) as u8)
    } else if 0x61 <= b <= 0x66 {
        Some((b - 0x61 + 10) as u8)
    } else if 0x41 <= b <= 0x46 {
        Some((b - 0x41 + 10) as u8)
    } else {
        None
    }
}

/// Whether the byte is white space.
pub open spec fn is_space(b: u8) -> bool {
    b == 0x20 || 0x09 <= b <= 0x0d
}

impl ByteClass {
    /// Whether the byte belongs to the class.
    pub open spec fn has(self, b: u8) -> bool {
        match self {
            ByteClass::Digit => is_digit(b),
            ByteClass::Decimal => is_digit(b) || b == 0x2e,
            ByteClass::Hex => hex_value(b) is Some,
            ByteClass::Space => is_space(b),
        }
    }

    /// Tells whether the byte belongs to the class.
    pub fn holds(self, b: u8) -> (r: bool)
        ensures
            r == self.has(b),
    {
        match self {
            ByteClass::Digit => 0x30 <= b && b <= 0x39,
            ByteClass::Decimal => (0x30 <= b && b <= 0x39) || b == 0x2e,
            ByteClass::Hex => (0x30 <= b && b <= 0x39) || (0x61 <= b && b <= 0x66) || (0x41 <= b
                && b <= 0x46),
            ByteClass::Space => b == 0x20 || (0x09 <= b && b <= 0x0d),
        }
    }
}

/// Whether `text` stands in `s` at position `at`.
pub open spec fn occurs_at(s: Seq<u8>, at: int, text: Seq<u8>) -> bool {
    0 <= at && at + text.len() <= s.len() && s.subrange(at, at + text.len()) == text
}

/// Whether `s` begins with `text`.
pub open spec fn starts_with(s: Seq<u8>, text: Seq<u8>) -> bool {
    occurs_at(s, 0, text)
}

/// Whether `s` ends with `text`.
pub open spec fn ends_with(s: Seq<u8>, text: Seq<u8>) -> bool {
    occurs_at(s, s.len() - text.len(), text)
}

/// Where the longest run of bytes of the class that begins at `from` ends.
pub open spec fn run_end(s: Seq<u8>, from: int, class: ByteClass) -> int
    decreases s.len() - from,
{
    if 0 <= from < s.len() && class.has(s[from]) {
        run_end(s, from + 1, class)
    } else {
        from
    }
}

/// The number that a run of decimal digits writes.
pub open spec fn decimal(digits: Seq<u8>) -> nat
    decreases digits.len(),
{
    if digits.len() == 0 {
        0
    } else {
        10 * decimal(digits.drop_last()) + (digits.last() - 0x30) as nat
    }
}

/// The number that a run of decimal digits writes, where a machine word holds
/// it.
pub open spec fn number(digits: Seq<u8>) -> Option<usize> {
    if decimal(digits) <= usize::MAX {
        Some(decimal(digits) as usize)
    } else {
        None
    }
}

/// Tells whether `text` stands in `s` at position `at`.
pub fn stands_at(s: &[u8], at: usize, text: &[u8]) -> (r: bool)
    ensures
        r == occurs_at(s@, at as int, text@),
{
    if at > s.len() || text.len() > s.len() - at {
        return false;
    }
    let mut i: usize = 0;
    while i < text.len()
        invariant
            at + text.len() <= s.len(),
            i <= text@.len(),
            forall|j: int| 0 <= j < i ==> s@[at + j] == text@[j],
        decreases text.len() - i,
    {
        if s[at + i] != text[i] {
            assert(s@.subrange(at as int, at + text@.len())[i as int] != text@[i as int]);
            return false;
        }
        i += 1;
    }
    assert(s@.subrange(at as int, at + text@.len()) =~= text@);
    true
}

/// Tells whether `s` begins with `text`.
pub fn has_prefix(s: &[u8], text: &[u8]) -> (r: bool)
    ensures
        r == starts_with(s@, text@),
{
    stands_at(s, 0, text)
}

/// Tells whether `s` ends with `text`.
pub fn has_suffix(s: &[u8], text: &[u8]) -> (r: bool)
    ensures
        r == ends_with(s@, text@),
{
    if text.len() > s.len() {
        return false;
    }
    stands_at(s, s.len() - text.len(), text)
}

/// Finds the end of the longest run of bytes of the class that begins at
/// `from`.
pub fn scan_run(s: &[u8], from: usize, class: ByteClass) -> (end: usize)
    requires
        from <= s@.len(),
    ensures
        end == run_end(s@, from as int, class),
        from <= end <= s@.len(),
        forall|k: int| from <= k < end ==> class.has(#[trigger] s@[k]),
        end < s@.len() ==> !class.has(s@[end as int]),
{
    let mut end: usize = from;
    while end < s.len() && class.holds(s[end])
        invariant
            from <= end <= s@.len(),
            run_end(s@, from as int, class) == run_end(s@, end as int, class),
            forall|k: int| from <= k < end ==> class.has(#[trigger] s@[k]),
        decreases s.len() - end,
    {
        end += 1;
    }
    end
}

/// A longer run of digits writes no smaller a number.
pub proof fn lemma_decimal_grows(digits: Seq<u8>, n: int)
    requires
        0 <= n <= digits.len(),
        forall|k: int| 0 <= k < digits.len() ==> is_digit(#[trigger] digits[k]),
    ensures
        decimal(digits.take(n)) <= decimal(digits),
    decreases digits.len() - n,
{
    if n < digits.len() {
        assert(digits.take(n + 1).drop_last() =~= digits.take(n));
        lemma_decimal_grows(digits, n + 1);
    } else {
        assert(digits.take(n) =~= digits);
    }
}

/// Reads the number that the digits `s[from .. to]` write.
pub fn read_number(s: &[u8], from: usize, to: usize) -> (r: Option<usize>)
    requires
        from <= to <= s@.len(),
        forall|k: int| from <= k < to ==> is_digit(#[trigger] s@[k]),
    ensures
        r == number(s@.subrange(from as int, to as int)),
{
    let ghost digits = s@.subrange(from as int, to as int);
    let mut value: usize = 0;
    let mut i: usize = from;
    assert(digits.take(0) =~= Seq::empty());
    while i < to
        invariant
            from <= i <= to <= s@.len(),
            digits == s@.subrange(from as int, to as int),
            forall|k: int| 0 <= k < digits.len() ==> is_digit(#[trigger] digits[k]),
            value == decimal(digits.take(i - from)),
        decreases to - i,
    {
        assert(is_digit(digits[i - from]));
        let d: usize = (s[i] - 0x30) as usize;
        assert(digits.take(i - from + 1).drop_last() =~= digits.take(i - from));
        assert(digits.take(i - from + 1).last() == s@[i as int]);
        proof {
            lemma_decimal_grows(digits, i - from + 1);
        }
        if value > (usize::MAX - d) / 10 {
            return None;
        }
        value = value * 10 + d;
        i += 1;
    }
    assert(digits.take(i - from) =~= digits);
    Some(value)
}

/// One piece of a marker.
#[derive(Clone, Copy, Debug)]
pub enum Piece<'a> {
    /// A fixed text.
    Text(&'a [u8]),
    /// One byte or more of a class, as many as stand there.
    Run(ByteClass),
    /// Exactly so many bytes of a class.
    Count(ByteClass, usize),
}

/// What a piece of a marker holds.
pub enum PieceView {
    Text(Seq<u8>),
    Run(ByteClass),
    Count(ByteClass, nat),
}

impl<'a> View for Piece<'a> {
    type V = PieceView;

    open spec fn view(&self) -> PieceView {
        match self {
            Piece::Text(t) => PieceView::Text(t@),
            Piece::Run(c) => PieceView::Run(*c),
            Piece::Count(c, n) => PieceView::Count(*c, *n as nat),
        }
    }
}

/// What a list of pieces holds.
pub open spec fn piece_views(pieces: Seq<Piece>) -> Seq<PieceView> {
    Seq::new(pieces.len(), |i: int| pieces[i]@)
}

/// Where the piece ends if it stands in `line` at position `at`.
pub open spec fn piece_end(line: Seq<u8>, at: int, piece: PieceView) -> Option<int> {
    match piece {
        PieceView::Text(t) => if occurs_at(line, at, t) {
            Some(at + t.len())
        } else {
            None
        },
        PieceView::Run(c) => if run_end(line, at, c) > at {
            Some(run_end(line, at, c))
        } else {
            None
        },
        PieceView::Count(c, n) => if run_end(line, at, c) >= at + n {
            Some(at + n)
        } else {
            None
        },
    }
}

/// Where each piece of the marker ends if the marker stands in `line` at
/// position `at`, piece after piece without a gap.
pub open spec fn marker_ends(line: Seq<u8>, at: int, marker: Seq<PieceView>) -> Option<Seq<int>>
    decreases marker.len(),
{
    if marker.len() == 0 {
        Some(Seq::empty())
    } else {
        match piece_end(line, at, marker[0]) {
            None => None,
            Some(end) => match marker_ends(line, end, marker.skip(1)) {
                None => None,
                Some(rest) => Some(seq![end] + rest),
            },
        }
    }
}

/// The first place at or after `from` at which the marker stands in `line`,
/// with the end of each of its pieces.
pub open spec fn marker_from(line: Seq<u8>, from: int, marker: Seq<PieceView>) -> Option<
    (int, Seq<int>),
>
    decreases line.len() - from + 1,
{
    if from < 0 || from > line.len() {
        None
    } else {
        match marker_ends(line, from, marker) {
            Some(ends) => Some((from, ends)),
            None => marker_from(line, from + 1, marker),
        }
    }
}

/// The first place at which the marker stands in `line`, with the end of each
/// of its pieces.
pub open spec fn first_marker(line: Seq<u8>, marker: Seq<PieceView>) -> Option<(int, Seq<int>)> {
    marker_from(line, 0, marker)
}

/// A marker found in a line.
#[derive(Clone, Debug)]
pub struct Found {
    /// Where the marker begins.
    pub at: usize,
    /// Where each of its pieces ends.
    pub ends: Vec<usize>,
}

/// The positions of a list as mathematical integers.
pub open spec fn positions(ends: Seq<usize>) -> Seq<int> {
    Seq::new(ends.len(), |i: int| ends[i] as int)
}

impl Found {
    /// The place and the piece ends as mathematical integers.
    pub open spec fn plain(&self) -> (int, Seq<int>) {
        (self.at as int, positions(self.ends@))
    }
}

/// Finds where the piece ends if it stands in `line` at position `at`.
pub fn match_piece(line: &[u8], at: usize, piece: &Piece) -> (r: Option<usize>)
    requires
        at <= line@.len(),
    ensures
        r matches Some(end) ==> piece_end(line@, at as int, piece@) == Some(end as int) && at
            <= end <= line@.len(),
        r is None ==> piece_end(line@, at as int, piece@) is None,
{
    match piece {
        Piece::Text(t) => {
            if stands_at(line, at, t) {
                assert(at + t@.len() <= line@.len() == line.len());
                Some(at + t.len())
            } else {
                None
            }
        },
        Piece::Run(c) => {
            let end = scan_run(line, at, *c);
            if end > at {
                Some(end)
            } else {
                None
            }
        },
        Piece::Count(c, n) => {
            let end = scan_run(line, at, *c);
            if end - at >= *n {
                Some(at + *n)
            } else {
                None
            }
        },
    }
}

/// Finds where each piece of the marker ends if the marker stands in `line`
/// at position `at`.
pub fn match_marker(line: &[u8], at: usize, marker: &[Piece]) -> (r: Option<Vec<usize>>)
    requires
        at <= line@.len(),
    ensures
        r matches Some(ends) ==> marker_ends(line@, at as int, piece_views(marker@)) == Some(
            positions(ends@),
        ) && ends@.len() == marker@.len() && forall|i: int|
            0 <= i < ends@.len() ==> at <= (#[trigger] ends@[i]) <= line@.len(),
        r is None ==> marker_ends(line@, at as int, piece_views(marker@)) is None,
{
    let ghost all = piece_views(marker@);
    let mut ends: Vec<usize> = Vec::new();
    let mut cur: usize = at;
    let mut k: usize = 0;
    assert(all.skip(0) =~= all);
    assert(positions(ends@) =~= Seq::empty());
    while k < marker.len()
        invariant
            k <= marker@.len(),
            all == piece_views(marker@),
            at <= cur <= line@.len(),
            ends@.len() == k,
            forall|i: int| 0 <= i < ends@.len() ==> at <= (#[trigger] ends@[i]) <= line@.len(),
            marker_ends(line@, at as int, all) == match marker_ends(
                line@,
                cur as int,
                all.skip(k as int),
            ) {
                None => None::<Seq<int>>,
                Some(rest) => Some(positions(ends@) + rest),
            },
        decreases marker.len() - k,
    {
        let ghost tail = all.skip(k as int);
        assert(tail[0] == marker@[k as int]@);
        assert(tail.skip(1) =~= all.skip(k + 1));
        match match_piece(line, cur, &marker[k]) {
            None => {
                return None;
            },
            Some(end) => {
                let ghost before = positions(ends@);
                ends.push(end);
                assert(positions(ends@) =~= before + seq![end as int]);
                assert forall|rest: Seq<int>| before + (seq![end as int] + rest) == positions(
                    ends@,
                ) + rest by {
                    assert(before + (seq![end as int] + rest) =~= positions(ends@) + rest);
                }
                cur = end;
            },
        }
        k += 1;
    }
    assert(all.skip(k as int) =~= Seq::empty());
    assert(positions(ends@) + Seq::<int>::empty() =~= positions(ends@));
    Some(ends)
}

/// Finds the first place at which the marker stands in `line`.
pub fn find_marker(line: &[u8], marker: &[Piece]) -> (r: Option<Found>)
    ensures
        r matches Some(found) ==> first_marker(line@, piece_views(marker@)) == Some(found.plain())
            && found.at <= line@.len() && found.ends@.len() == marker@.len() && forall|i: int|
            0 <= i < found.ends@.len() ==> found.at <= (#[trigger] found.ends@[i]) <= line@.len(),
        r is None ==> first_marker(line@, piece_views(marker@)) is None,
{
    let mut at: usize = 0;
    while at <= line.len()
        invariant
            at <= line@.len() + 1,
            first_marker(line@, piece_views(marker@)) == marker_from(
                line@,
                at as int,
                piece_views(marker@),
            ),
        decreases line.len() + 1 - at,
    {
        match match_marker(line, at, marker) {
            Some(ends) => {
                return Some(Found { at, ends });
            },
            None => {},
        }
        if at == line.len() {
            assert(marker_from(line@, at + 1, piece_views(marker@)) is None);
            return None;
        }
        at += 1;
    }
    None
}

/// Where the first byte `b` at or after `from` stands, or the length of `s`
/// where there is none.
pub open spec fn next_byte(s: Seq<u8>, from: int, b: u8) -> int
    decreases s.len() - from,
{
    if from < 0 || from >= s.len() {
        s.len() as int
    } else if s[from] == b {
        from
    } else {
        next_byte(s, from + 1, b)
    }
}

/// Where the content of the line that begins at `from` ends: before its line
/// feed, and before the carriage return that precedes the line feed, if one
/// does.
pub open spec fn line_end(text: Seq<u8>, from: int) -> int {
    let feed = next_byte(text, from, 0x0a);
    if from < feed < text.len() && text[feed - 1] == 0x0d {
        feed - 1
    } else {
        feed
    }
}

/// Where the line after the one that begins at `from` begins.
pub open spec fn line_next(text: Seq<u8>, from: int) -> int {
    let feed = next_byte(text, from, 0x0a);
    if feed < text.len() {
        feed + 1
    } else {
        feed
    }
}

/// The lines of the text from position `from` on. A line ends with a line
/// feed or with the text; the line feed, and a carriage return before it, are
/// no part of the line.
pub open spec fn lines_from(text: Seq<u8>, from: int) -> Seq<Seq<u8>>
    decreases text.len() - from,
{
    if from < 0 || from >= text.len() {
        Seq::empty()
    } else {
        proof {
            lemma_next_byte_bounds(text, from, 0x0a);
        }
        seq![text.subrange(from, line_end(text, from))] + lines_from(text, line_next(text, from))
    }
}

/// The lines of the text.
pub open spec fn lines(text: Seq<u8>) -> Seq<Seq<u8>> {
    lines_from(text, 0)
}

/// The first byte `b` at or after `from` stands at or after `from`, within
/// the text or at its end.
pub proof fn lemma_next_byte_bounds(s: Seq<u8>, from: int, b: u8)
    requires
        0 <= from <= s.len(),
    ensures
        from <= next_byte(s, from, b) <= s.len(),
        next_byte(s, from, b) < s.len() ==> s[next_byte(s, from, b)] == b,
        forall|k: int| from <= k < next_byte(s, from, b) ==> s[k] != b,
    decreases s.len() - from,
{
    if from < s.len() && s[from] != b {
        lemma_next_byte_bounds(s, from + 1, b);
    }
}

/// Finds the first byte `b` at or after `from`.
pub fn seek_byte(s: &[u8], from: usize, b: u8) -> (at: usize)
    requires
        from <= s@.len(),
    ensures
        at == next_byte(s@, from as int, b),
        from <= at <= s@.len(),
{
    let mut at: usize = from;
    while at < s.len() && s[at] != b
        invariant
            from <= at <= s@.len(),
            next_byte(s@, from as int, b) == next_byte(s@, at as int, b),
        decreases s.len() - at,
    {
        at += 1;
    }
    at
}

/// Finds the end of the line that begins at `from`, and the start of the next.
pub fn next_line(text: &[u8], from: usize) -> (r: (usize, usize))
    requires
        from < text@.len(),
    ensures
        r.0 == line_end(text@, from as int),
        r.1 == line_next(text@, from as int),
        from <= r.0 <= r.1 <= text@.len(),
        from < r.1,
{
    let feed = seek_byte(text, from, 0x0a);
    let end = if from < feed && feed < text.len() && text[feed - 1] == 0x0d {
        feed - 1
    } else {
        feed
    };
    let next = if feed < text.len() {
        feed + 1
    } else {
        feed
    };
    (end, next)
}

/// Where the longest run of bytes of the class that ends at `to` begins.
pub open spec fn run_start(s: Seq<u8>, to: int, class: ByteClass) -> int
    decreases to,
{
    if 0 < to <= s.len() && class.has(s[to - 1]) {
        run_start(s, to - 1, class)
    } else {
        to
    }
}

/// The text without the white space before and after it.
pub open spec fn trimmed(s: Seq<u8>) -> Seq<u8> {
    let from = run_end(s, 0, ByteClass::Space);
    let to = run_start(s, s.len() as int, ByteClass::Space);
    if from < to {
        s.subrange(from, to)
    } else {
        Seq::empty()
    }
}

/// Finds the part of `s` that is left without the white space before and
/// after it.
pub fn trim(s: &[u8]) -> (r: &[u8])
    ensures
        r@ == trimmed(s@),
{
    let from = scan_run(s, 0, ByteClass::Space);
    let mut to: usize = s.len();
    while to > 0 && ByteClass::Space.holds(s[to - 1])
        invariant
            to <= s@.len(),
            run_start(s@, s@.len() as int, ByteClass::Space) == run_start(
                s@,
                to as int,
                ByteClass::Space,
            ),
        decreases to,
    {
        to -= 1;
    }
    if from < to {
        slice_subrange(s, from, to)
    } else {
        let r = slice_subrange(s, 0, 0);
        assert(r@ =~= Seq::empty());
        r
    }
}

/// The fields of `s` from position `from` on: what stands between one `sep`
/// and the next, between `from` and the first and between the last and the
/// end.
pub open spec fn fields_from(s: Seq<u8>, from: int, sep: u8) -> Seq<Seq<u8>>
    decreases s.len() - from,
{
    if from < 0 || from > s.len() {
        Seq::empty()
    } else {
        proof {
            lemma_next_byte_bounds(s, from, sep);
        }
        let at = next_byte(s, from, sep);
        if at >= s.len() {
            seq![s.subrange(from, s.len() as int)]
        } else {
            seq![s.subrange(from, at)] + fields_from(s, at + 1, sep)
        }
    }
}

/// The fields of `s`: what stands between one `sep` and the next, before the
/// first and after the last. A text without `sep` is one field.
pub open spec fn fields(s: Seq<u8>, sep: u8) -> Seq<Seq<u8>> {
    fields_from(s, 0, sep)
}

/// Every byte of a run belongs to the class of the run.
pub proof fn lemma_run_members(s: Seq<u8>, from: int, class: ByteClass)
    requires
        0 <= from <= s.len(),
    ensures
        forall|k: int| from <= k < run_end(s, from, class) ==> class.has(#[trigger] s[k]),
    decreases s.len() - from,
{
    if from < s.len() && class.has(s[from]) {
        lemma_run_members(s, from + 1, class);
    }
}

/// A marker that stands at `at` has one end for each piece, and piece `k`
/// stands where piece `k - 1` ends.
pub proof fn lemma_marker_piece(line: Seq<u8>, at: int, marker: Seq<PieceView>, k: int)
    requires
        marker_ends(line, at, marker) is Some,
        0 <= k < marker.len(),
    ensures
        marker_ends(line, at, marker)->0.len() == marker.len(),
        piece_end(
            line,
            if k == 0 {
                at
            } else {
                marker_ends(line, at, marker)->0[k - 1]
            },
            marker[k],
        ) == Some(marker_ends(line, at, marker)->0[k]),
    decreases marker.len(),
{
    let end = piece_end(line, at, marker[0])->0;
    let rest = marker_ends(line, end, marker.skip(1))->0;
    assert(marker_ends(line, at, marker)->0 == seq![end] + rest);
    if marker.len() > 1 {
        lemma_marker_piece(line, end, marker.skip(1), if k == 0 {
            0
        } else {
            k - 1
        });
    } else {
        assert(marker.skip(1).len() == 0);
    }
}

/// What the first place of a marker is: the marker stands there and at no
/// place before it; and where there is no first place, the marker stands
/// nowhere.
pub proof fn lemma_marker_from(line: Seq<u8>, from: int, marker: Seq<PieceView>)
    requires
        0 <= from,
    ensures
        match marker_from(line, from, marker) {
            Some((at, ends)) => from <= at <= line.len() && marker_ends(line, at, marker) == Some(
                ends,
            ) && forall|a: int| from <= a < at ==> marker_ends(line, a, marker) is None,
            None => forall|a: int| from <= a <= line.len() ==> marker_ends(line, a, marker) is None,
        },
    decreases line.len() - from + 1,
{
    if from <= line.len() && marker_ends(line, from, marker) is None {
        lemma_marker_from(line, from + 1, marker);
    }
}

} // verus!
