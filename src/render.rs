//! The board as text: a score line, a blank line, then three lines per row
//! of boxed cells, each piece of text with the colour of its tile.

use vstd::prelude::*;
use vstd::string::{StrSliceExecFns, StringExecFns};
use crate::board::{Grid, SIZE};

verus! {

/// Colour in which a tile is drawn.
#[derive(Clone, Copy, Debug, PartialEq, Eq, Structural)]
pub enum TileColor {
    DarkGray,
    Green,
    Yellow,
    Blue,
    Magenta,
    Red,
    Cyan,
    LightGreen,
    LightYellow,
    LightBlue,
    LightMagenta,
    LightRed,
    LightCyan,
}

/// The colour of a tile of value `num`; 0 is an empty cell.
pub open spec fn color_of(num: u32) -> TileColor {
    match num {
        0 => TileColor::DarkGray,
        2 => TileColor::Green,
        4 => TileColor::Yellow,
        8 => TileColor::Blue,
        16 => TileColor::Magenta,
        32 => TileColor::Red,
        64 => TileColor::Cyan,
        128 => TileColor::LightGreen,
        256 => TileColor::LightYellow,
        512 => TileColor::LightBlue,
        1024 => TileColor::LightMagenta,
        2048 => TileColor::LightRed,
        _ => TileColor::LightCyan,
    }
}

/// The colour of a tile of value `num`.
pub fn tile_color(num: u32) -> (r: TileColor)
    ensures
        r == color_of(num),
{
    match num {
        0 => TileColor::DarkGray,
        2 => TileColor::Green,
        4 => TileColor::Yellow,
        8 => TileColor::Blue,
        16 => TileColor::Magenta,
        32 => TileColor::Red,
        64 => TileColor::Cyan,
        128 => TileColor::LightGreen,
        256 => TileColor::LightYellow,
        512 => TileColor::LightBlue,
        1024 => TileColor::LightMagenta,
        2048 => TileColor::LightRed,
        _ => TileColor::LightCyan,
    }
}

/// The decimal digit for `d < 10`.
pub open spec fn digit(d: nat) -> char {
    if d == 0 { '0' } else if d == 1 { '1' } else if d == 2 { '2' } else if d == 3 { '3' } else if d == 4 { '4' }
    else if d == 5 { '5' } else if d == 6 { '6' } else if d == 7 { '7' } else if d == 8 { '8' } else { '9' }
}

/// `n` written in decimal, without leading zeros.
pub open spec fn decimal(n: nat) -> Seq<char>
    decreases n,
{
    if n < 10 {
        seq![digit(n)]
    } else {
        decimal(n / 10).push(digit(n % 10))
    }
}

/// `n` spaces.
pub open spec fn spaces(n: nat) -> Seq<char> {
    Seq::new(n, |i: int| ' ')
}

/// `s` centred in a field of five characters: the padding split in two, the
/// odd space on the right; longer text is left as it is.
pub open spec fn centered(s: Seq<char>) -> Seq<char> {
    let pad: nat = if s.len() < 5 { (5 - s.len()) as nat } else { 0 };
    spaces(pad / 2) + s + spaces((pad + 1) / 2)
}

/// The middle text of a cell holding `num`, between its side walls.
pub open spec fn cell_label(num: u32) -> Seq<char> {
    if num == 0 { spaces(5) } else { centered(decimal(num as nat)) }
}

/// Relies on the `Display` of `u32` (through `to_string`): the decimal
/// digits of `n`, without sign or leading zeros.
#[verifier::external_body]
fn decimal_text(n: u32) -> (r: String)
    ensures
        r@ == decimal(n as nat),
{
    n.to_string()
}

/// Appends `n` spaces to `s`.
fn push_spaces(s: &mut String, n: usize)
    ensures
        final(s)@ == old(s)@ + spaces(n as nat),
{
    let mut i: usize = 0;
    while i < n
        invariant
            i <= n,
            s@ == old(s)@ + spaces(i as nat),
        decreases n - i,
    {
        s.append(" ");
        i += 1;
        proof {
            reveal_strlit(" ");
        }
        assert(s@ =~= old(s)@ + spaces(i as nat));
    }
}

/// The text of the middle line of a cell holding `num`.
fn cell_text(num: u32) -> (r: String)
    ensures
        r@ == "│"@ + cell_label(num) + "│ "@,
{
    let mut text = String::from_str("│");
    if num == 0 {
        push_spaces(&mut text, 5);
    } else {
        let digits = decimal_text(num);
        let len = digits.as_str().unicode_len();
        let pad: usize = if len < 5 { 5 - len } else { 0 };
        push_spaces(&mut text, pad / 2);
        text.append(digits.as_str());
        push_spaces(&mut text, (pad + 1) / 2);
    }
    text.append("│ ");
    text
}

/// A piece of text and the colour it is drawn in (`None`: the terminal's
/// own colour).
pub struct TextSpan {
    pub text: String,
    pub color: Option<TileColor>,
}

/// A line of the picture, as the pieces it is made of.
pub type TextLine = Vec<TextSpan>;

/// `sp` holds `text` in colour `color`.
pub open spec fn span_is(sp: TextSpan, text: Seq<char>, color: Option<TileColor>) -> bool {
    sp.text@ == text && sp.color == color
}

/// The colour a cell holding `num` is drawn in, with colours on or off.
pub open spec fn tint(num: u32, colored: bool) -> Option<TileColor> {
    if colored {
        Some(color_of(num))
    } else {
        None
    }
}

/// The top edge of a cell.
pub open spec fn top_edge() -> Seq<char> {
    "┌─────┐ "@
}

/// The bottom edge of a cell.
pub open spec fn bottom_edge() -> Seq<char> {
    "└─────┘ "@
}

/// Lines `2 + 3 * r` to `4 + 3 * r` of `lines` picture the row `row`: its
/// top edges, its labels and its bottom edges, one piece per cell.
pub open spec fn row_pictured(lines: Seq<TextLine>, r: int, row: Seq<u32>, colored: bool) -> bool {
    &&& lines[2 + 3 * r]@.len() == SIZE
    &&& lines[3 + 3 * r]@.len() == SIZE
    &&& lines[4 + 3 * r]@.len() == SIZE
    &&& forall|c: int|
        0 <= c < SIZE ==> {
            &&& span_is(#[trigger] lines[2 + 3 * r]@[c], top_edge(), tint(row[c], colored))
            &&& span_is(lines[3 + 3 * r]@[c], "│"@ + cell_label(row[c]) + "│ "@, tint(row[c], colored))
            &&& span_is(lines[4 + 3 * r]@[c], bottom_edge(), tint(row[c], colored))
        }
}

/// `lines` is the picture of a game with score `score` and board `b`: the
/// score, a blank line, then three lines for each row.
pub open spec fn pictures(lines: Seq<TextLine>, score: u32, b: Seq<Seq<u32>>, colored: bool) -> bool {
    &&& lines.len() == 2 + 3 * SIZE
    &&& lines[0]@.len() == 1
    &&& span_is(lines[0]@[0], "Score: "@ + decimal(score as nat), None)
    &&& lines[1]@.len() == 0
    &&& forall|r: int| 0 <= r < SIZE ==> #[trigger] row_pictured(lines, r, b[r], colored)
}

/// The colour a cell holding `num` is drawn in.
fn cell_tint(num: u32, colored: bool) -> (r: Option<TileColor>)
    ensures
        r == tint(num, colored),
{
    if colored {
        Some(tile_color(num))
    } else {
        None
    }
}

/// Draws one row of the board as its three lines.
fn row_lines(row: &[u32; SIZE], colored: bool) -> (r: (TextLine, TextLine, TextLine))
    ensures
        row_pictured(seq![r.0, r.0, r.0, r.1, r.2], 0, row@, colored),
{
    let mut top: TextLine = Vec::new();
    let mut middle: TextLine = Vec::new();
    let mut bottom: TextLine = Vec::new();
    let mut c: usize = 0;
    while c < SIZE
        invariant
            c <= SIZE,
            top@.len() == c && middle@.len() == c && bottom@.len() == c,
            forall|c2: int|
                0 <= c2 < c ==> {
                    &&& span_is(#[trigger] top@[c2], top_edge(), tint(row[c2], colored))
                    &&& span_is(middle@[c2], "│"@ + cell_label(row[c2]) + "│ "@, tint(row[c2], colored))
                    &&& span_is(bottom@[c2], bottom_edge(), tint(row[c2], colored))
                },
        decreases SIZE - c,
    {
        let num = row[c];
        top.push(TextSpan { text: String::from_str("┌─────┐ "), color: cell_tint(num, colored) });
        middle.push(TextSpan { text: cell_text(num), color: cell_tint(num, colored) });
        bottom.push(TextSpan { text: String::from_str("└─────┘ "), color: cell_tint(num, colored) });
        c += 1;
    }
    let ghost lines: Seq<TextLine> = seq![top, top, top, middle, bottom];
    assert(lines[2] == top && lines[3] == middle && lines[4] == bottom);
    (top, middle, bottom)
}

/// Draws a game with score `score` and board `board`, with or without colours.
fn picture(score: u32, board: &Grid, colored: bool) -> (r: Vec<TextLine>)
    ensures
        pictures(r@, score, crate::board::grid_view(*board), colored),
{
    let mut lines: Vec<TextLine> = Vec::new();
    let mut heading = String::from_str("Score: ");
    let digits = decimal_text(score);
    heading.append(digits.as_str());
    let mut first: TextLine = Vec::new();
    first.push(TextSpan { text: heading, color: None });
    lines.push(first);
    lines.push(Vec::new());
    let mut r: usize = 0;
    while r < SIZE
        invariant
            r <= SIZE,
            lines@.len() == 2 + 3 * r,
            lines@[0]@.len() == 1,
            span_is(lines@[0]@[0], "Score: "@ + decimal(score as nat), None),
            lines@[1]@.len() == 0,
            forall|r2: int| 0 <= r2 < r ==> #[trigger] row_pictured(lines@, r2, board[r2]@, colored),
        decreases SIZE - r,
    {
        let (top, middle, bottom) = row_lines(&board[r], colored);
        let ghost prev = lines@;
        lines.push(top);
        lines.push(middle);
        lines.push(bottom);
        assert(forall|i: int| 0 <= i < prev.len() ==> #[trigger] lines@[i] == prev[i]);
        assert forall|r2: int| 0 <= r2 < r + 1 implies #[trigger] row_pictured(
            lines@,
            r2,
            board[r2]@,
            colored,
        ) by {
            if r2 < r {
                assert(row_pictured(prev, r2, board[r2]@, colored));
                assert(lines@[2 + 3 * r2] == prev[2 + 3 * r2]);
                assert(lines@[3 + 3 * r2] == prev[3 + 3 * r2]);
                assert(lines@[4 + 3 * r2] == prev[4 + 3 * r2]);
            } else {
                let ghost here: Seq<TextLine> = seq![top, top, top, middle, bottom];
                assert(row_pictured(here, 0, board[r2]@, colored));
                assert(lines@[2 + 3 * r] == top);
                assert(lines@[3 + 3 * r] == middle);
                assert(lines@[4 + 3 * r] == bottom);
            }
        }
        r += 1;
    }
    let ghost b = crate::board::grid_view(*board);
    assert forall|r2: int| 0 <= r2 < SIZE implies #[trigger] row_pictured(lines@, r2, b[r2], colored) by {
        assert(row_pictured(lines@, r2, board[r2]@, colored));
    }
    lines
}

/// Draws the game with a colour for each tile value.
pub struct DefaultRenderer;

impl DefaultRenderer {
    /// The picture of a game with score `score` and board `board`, in colour.
    pub fn render(&self, score: u32, board: &Grid) -> (r: Vec<TextLine>)
        ensures
            pictures(r@, score, crate::board::grid_view(*board), true),
    {
        picture(score, board, true)
    }

    /// Draws in colour.
    pub fn is_color(&self) -> (r: bool)
        ensures
            r,
    {
        true
    }
}

/// Draws the game without colours, for terminals with little colour support.
pub struct NoColorRenderer;

impl NoColorRenderer {
    /// The picture of a game with score `score` and board `board`, without
    /// colours.
    pub fn render(&self, score: u32, board: &Grid) -> (r: Vec<TextLine>)
        ensures
            pictures(r@, score, crate::board::grid_view(*board), false),
    {
        picture(score, board, false)
    }

    /// Draws without colour.
    pub fn is_color(&self) -> (r: bool)
        ensures
            !r,
    {
        false
    }
}

} // verus!
