use vstd::prelude::*;
use vstd::string::*;

verus! {

/// Font metrics are given in 64ths of a pixel.
pub const SUBPIXELS: u32 = 64;

/// One line of a text with its rendered width in whole pixels.
#[derive(Debug)]
pub struct MeasuredLine {
    pub text: String,
    pub width: u32,
}

/// Where one line is drawn: the number of the line in the text, the left
/// edge and the vertical position, in pixels.
#[derive(Clone, Copy, Debug, PartialEq, Eq, Structural)]
pub struct Placement {
    pub line: usize,
    pub x: i64,
    pub y: i128,
}

impl Placement {
    /// The line starts on the canvas: neither left of it nor above it, and
    /// within what its coordinates hold.
    pub open spec fn on_canvas(self) -> bool {
        0 <= self.x <= u32::MAX && 0 <= self.y <= u32::MAX
    }

    /// Where on the canvas the line starts. A line that starts off the
    /// canvas has no such place and is not drawn.
    pub fn origin(&self) -> (at: Option<(u32, u32)>)
        ensures
            match at {
                Some(point) => self.on_canvas() && point.0 == self.x && point.1 == self.y,
                None => !self.on_canvas(),
            },
    {
        if 0 <= self.x && self.x <= 0xFFFF_FFFF && 0 <= self.y && self.y <= 0xFFFF_FFFF {
            Some((self.x as u32, self.y as u32))
        } else {
            None
        }
    }
}

/// `num / den` rounded to the nearest integer, a tie away from zero.
pub open spec fn round_half_away(num: int, den: int) -> int
    recommends
        den > 0,
{
    if num >= 0 {
        (2 * num + den) / (2 * den)
    } else {
        -((2 * (-num) + den) / (2 * den))
    }
}

/// The vertical offset in pixels of line `index` among `count` lines of the
/// given height in 64ths of a pixel: `(index - (count - 1) / 2)` line
/// heights, rounded.
pub open spec fn line_offset(index: int, count: int, line_height: int) -> int {
    round_half_away((2 * index - (count - 1)) * line_height, 2 * SUBPIXELS)
}

/// The left edge of a line of the given width centred on `anchor_x`.
pub open spec fn line_left(anchor_x: int, width: int) -> int {
    anchor_x - width / 2
}

/// Where line `index` of `lines` is drawn about the anchor.
pub open spec fn placement_of(
    lines: Seq<MeasuredLine>,
    index: int,
    line_height: u32,
    anchor: (u32, u32),
) -> Placement {
    Placement {
        line: index as usize,
        x: line_left(anchor.0 as int, lines[index].width as int) as i64,
        y: (anchor.1 + line_offset(index, lines.len() as int, line_height as int)) as i128,
    }
}

/// The placements of the first `n` lines: one for each line that is not
/// empty, in the order of the lines. An empty line is not drawn, yet counts
/// as a line for the offsets of the others.
pub open spec fn placements(lines: Seq<MeasuredLine>, n: int, line_height: u32, anchor: (u32, u32)) -> Seq<
    Placement,
>
    decreases n,
{
    if n <= 0 {
        Seq::empty()
    } else {
        let before = placements(lines, n - 1, line_height, anchor);
        if lines[n - 1].text@.len() == 0 {
            before
        } else {
            before.push(placement_of(lines, n - 1, line_height, anchor))
        }
    }
}

/// The rounded quotient is a nearest integer: it differs from `num / den` by
/// at most one half.
pub proof fn round_is_nearest(num: int, den: int)
    requires
        den > 0,
    ensures
        2 * num - den <= 2 * den * round_half_away(num, den) <= 2 * num + den,
{
    let d = 2 * den;
    if num >= 0 {
        let a = 2 * num + den;
        vstd::arithmetic::div_mod::lemma_fundamental_div_mod(a, d);
        vstd::arithmetic::div_mod::lemma_mod_bound(a, d);
        assert(d * (a / d) == 2 * den * round_half_away(num, den)) by (nonlinear_arith)
            requires
                d == 2 * den,
                a / d == round_half_away(num, den),
        ;
    } else {
        let a = 2 * (-num) + den;
        vstd::arithmetic::div_mod::lemma_fundamental_div_mod(a, d);
        vstd::arithmetic::div_mod::lemma_mod_bound(a, d);
        assert(d * (a / d) == -(2 * den * round_half_away(num, den))) by (nonlinear_arith)
            requires
                d == 2 * den,
                a / d == -round_half_away(num, den),
        ;
    }
}

/// Of two lines the first lies half a line height above the anchor and the
/// second half a line height below it, the half rounded to whole pixels.
pub proof fn two_line_offsets(line_height: u32)
    ensures
        line_offset(0, 2, line_height as int) == -round_half_away(
            line_height as int,
            2 * SUBPIXELS,
        ),
        line_offset(1, 2, line_height as int) == round_half_away(line_height as int, 2 * SUBPIXELS),
{
    let h = line_height as int;
    assert((2 * 0 - (2 - 1)) * h == -h) by (nonlinear_arith);
    assert((2 * 1 - (2 - 1)) * h == h) by (nonlinear_arith);
}

/// A text of two lines, neither empty, is drawn with the first line half a
/// line height above the anchor and the second half a line height below it,
/// each centred by its own width.
pub proof fn two_line_placements(lines: Seq<MeasuredLine>, line_height: u32, anchor: (u32, u32))
    requires
        lines.len() == 2,
        lines[0].text@.len() > 0,
        lines[1].text@.len() > 0,
    ensures
        placements(lines, 2, line_height, anchor) == seq![
            Placement {
                line: 0,
                x: (anchor.0 - lines[0].width / 2) as i64,
                y: (anchor.1 - round_half_away(line_height as int, 2 * SUBPIXELS)) as i128,
            },
            Placement {
                line: 1,
                x: (anchor.0 - lines[1].width / 2) as i64,
                y: (anchor.1 + round_half_away(line_height as int, 2 * SUBPIXELS)) as i128,
            },
        ],
{
    two_line_offsets(line_height);
    reveal_with_fuel(placements, 3);
    assert(placements(lines, 2, line_height, anchor) =~= seq![
        placement_of(lines, 0, line_height, anchor),
        placement_of(lines, 1, line_height, anchor),
    ]);
}

/// A single line, or the middle line of an odd number, lies on the anchor.
pub proof fn middle_line_offset(index: int, line_height: u32)
    requires
        0 <= index,
    ensures
        line_offset(index, 2 * index + 1, line_height as int) == 0,
{
    assert((2 * index - (2 * index + 1 - 1)) * (line_height as int) == 0) by (nonlinear_arith);
    vstd::arithmetic::div_mod::lemma_basic_div(128, 256);
}

fn offset(index: usize, count: usize, line_height: u32) -> (r: i128)
    requires
        index < count,
    ensures
        r == line_offset(index as int, count as int, line_height as int),
        -0x1_0000_0000_0000_0000_0000_0000 <= r <= 0x1_0000_0000_0000_0000_0000_0000,
{
    let twice: i128 = 2 * (index as i128) - ((count as i128) - 1);
    let height: u128 = line_height as u128;
    if twice >= 0 {
        let steps: u128 = twice as u128;
        assert(0 <= steps * height <= 0x2_0000_0000_0000_0000 * 0x1_0000_0000) by (nonlinear_arith)
            requires
                0 <= steps <= 0x2_0000_0000_0000_0000,
                0 <= height <= 0x1_0000_0000,
        ;
        assert(steps * height == (2 * index - (count - 1)) * line_height) by (nonlinear_arith)
            requires
                steps == 2 * index - (count - 1),
                height == line_height,
        ;
        let num: u128 = steps * height;
        ((2 * num + 128) / 256) as i128
    } else {
        let steps: u128 = (-twice) as u128;
        assert(0 <= steps * height <= 0x2_0000_0000_0000_0000 * 0x1_0000_0000) by (nonlinear_arith)
            requires
                0 <= steps <= 0x2_0000_0000_0000_0000,
                0 <= height <= 0x1_0000_0000,
        ;
        assert(steps * height == -((2 * index - (count - 1)) * line_height)) by (nonlinear_arith)
            requires
                steps == -(2 * index - (count - 1)),
                height == line_height,
        ;
        let num: u128 = steps * height;
        -(((2 * num + 128) / 256) as i128)
    }
}

/// Computes where each line of a text is drawn: the lines stacked about the
/// anchor's height, one line height apart, and each centred on the anchor's
/// column by its own width. `line_height` is ascent less descent plus line
/// gap, in 64ths of a pixel. Empty lines get no placement.
pub fn draw_text(lines: &Vec<MeasuredLine>, line_height: u32, mid: &(u32, u32)) -> (placed: Vec<
    Placement,
>)
    ensures
        placed@ == placements(lines@, lines@.len() as int, line_height, *mid),
{
    let mut placed: Vec<Placement> = Vec::new();
    let count = lines.len();
    let mut index: usize = 0;
    while index < count
        invariant
            index <= count,
            count == lines@.len(),
            placed@ == placements(lines@, index as int, line_height, *mid),
        decreases count - index,
    {
        let line = &lines[index];
        if line.text.as_str().unicode_len() != 0 {
            let x: i64 = (mid.0 as i64) - ((line.width / 2) as i64);
            let y: i128 = (mid.1 as i128) + offset(index, count, line_height);
            placed.push(Placement { line: index, x, y });
        }
        index = index + 1;
    }
    placed
}

/// A line without the carriage return that ends it, if one does.
pub open spec fn without_return(line: Seq<char>) -> Seq<char> {
    if line.len() > 0 && line.last() == '\r' {
        line.drop_last()
    } else {
        line
    }
}

/// The lines of `text` from position `start` on, where the characters from
/// `start` up to `at` hold no line feed. A line ends at a line feed, or at a
/// carriage return and a line feed; after the last line feed follows a line
/// only if characters are left.
pub open spec fn lines_from(text: Seq<char>, start: int, at: int) -> Seq<Seq<char>>
    decreases text.len() - at,
{
    if at >= text.len() {
        if start < text.len() {
            seq![text.subrange(start, text.len() as int)]
        } else {
            Seq::empty()
        }
    } else if text[at] == '\n' {
        seq![without_return(text.subrange(start, at))] + lines_from(text, at + 1, at + 1)
    } else {
        lines_from(text, start, at + 1)
    }
}

/// The lines of a text.
pub open spec fn lines_of(text: Seq<char>) -> Seq<Seq<char>> {
    lines_from(text, 0, 0)
}

proof fn lemma_lines_from(text: Seq<char>, start: int, at: int)
    requires
        0 <= start <= at <= text.len(),
        forall|k: int| start <= k < at ==> text[k] != '\n',
    ensures
        forall|i: int, j: int|
            0 <= i < lines_from(text, start, at).len() && 0 <= j < lines_from(
                text,
                start,
                at,
            )[i].len() ==> lines_from(text, start, at)[i][j] != '\n',
    decreases text.len() - at,
{
    let lines = lines_from(text, start, at);
    if at >= text.len() {
        assert forall|i: int, j: int| 0 <= i < lines.len() && 0 <= j < lines[i].len() implies lines[i][j]
            != '\n' by {
            assert(lines[i] == text.subrange(start, text.len() as int));
            assert(lines[i][j] == text[start + j]);
        }
    } else if text[at] == '\n' {
        lemma_lines_from(text, at + 1, at + 1);
        let first = without_return(text.subrange(start, at));
        let rest = lines_from(text, at + 1, at + 1);
        assert(lines == seq![first] + rest);
        assert forall|i: int, j: int| 0 <= i < lines.len() && 0 <= j < lines[i].len() implies lines[i][j]
            != '\n' by {
            if i == 0 {
                assert(lines[0] == first);
                assert(first[j] == text[start + j]);
            } else {
                assert(lines[i] == rest[i - 1]);
            }
        }
    } else {
        lemma_lines_from(text, start, at + 1);
        assert(lines == lines_from(text, start, at + 1));
    }
}

/// No line of a text holds a line feed.
pub proof fn lines_hold_no_line_feed(text: Seq<char>)
    ensures
        forall|i: int, j: int|
            0 <= i < lines_of(text).len() && 0 <= j < lines_of(text)[i].len() ==> lines_of(
                text,
            )[i][j] != '\n',
{
    lemma_lines_from(text, 0, 0);
}

/// A text without a line feed is one line, or none where it is empty.
pub proof fn one_line_without_line_feed(text: Seq<char>)
    requires
        forall|k: int| 0 <= k < text.len() ==> text[k] != '\n',
    ensures
        lines_of(text) == if text.len() == 0 {
            Seq::<Seq<char>>::empty()
        } else {
            seq![text]
        },
{
    lemma_scan(text, 0);
    assert(text.subrange(0, text.len() as int) =~= text);
}

proof fn lemma_scan(text: Seq<char>, at: int)
    requires
        0 <= at <= text.len(),
        forall|k: int| 0 <= k < text.len() ==> text[k] != '\n',
    ensures
        lines_from(text, 0, at) == lines_from(text, 0, text.len() as int),
    decreases text.len() - at,
{
    if at < text.len() {
        lemma_scan(text, at + 1);
    }
}

/// The texts of a list of strings.
pub open spec fn texts_of(lines: Seq<String>) -> Seq<Seq<char>> {
    lines.map_values(|line: String| line@)
}

/// Splits a text into its lines, without their line endings.
pub fn split_lines(text: &str) -> (lines: Vec<String>)
    ensures
        texts_of(lines@) == lines_of(text@),
{
    let mut lines: Vec<String> = Vec::new();
    let len = text.unicode_len();
    let mut start: usize = 0;
    let mut at: usize = 0;
    proof {
        assert(texts_of(lines@) =~= Seq::<Seq<char>>::empty());
    }
    while at < len
        invariant
            len == text@.len(),
            start <= at <= len,
            lines_of(text@) == texts_of(lines@) + lines_from(text@, start as int, at as int),
        decreases len - at,
    {
        if text.get_char(at) == '\n' {
            let end = if at > start && text.get_char(at - 1) == '\r' {
                at - 1
            } else {
                at
            };
            let line = String::from_str(text.substring_char(start, end));
            proof {
                let whole = text@.subrange(start as int, at as int);
                if at > start {
                    assert(whole.last() == text@[at - 1]);
                }
                assert(line@ =~= without_return(whole));
                let ghost grown = lines@.push(line);
                assert(texts_of(grown) =~= texts_of(lines@) + seq![line@]);
                assert(texts_of(lines@) + (seq![line@] + lines_from(text@, at + 1, at + 1))
                    =~= texts_of(grown) + lines_from(text@, at + 1, at + 1));
            }
            lines.push(line);
            start = at + 1;
        }
        at = at + 1;
    }
    if start < len {
        let line = String::from_str(text.substring_char(start, len));
        proof {
            let ghost grown = lines@.push(line);
            assert(texts_of(grown) =~= texts_of(lines@) + seq![line@]);
        }
        lines.push(line);
    } else {
        proof {
            assert(texts_of(lines@) + Seq::<Seq<char>>::empty() =~= texts_of(lines@));
        }
    }
    lines
}

} // verus!
