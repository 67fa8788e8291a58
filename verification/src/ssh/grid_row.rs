//! One rendered row of the terminal grid: the text of its cells, the styled
//! runs covering that text, and the byte offset at which each column starts.
//!
//! The second half of a wide (CJK, emoji) glyph is a spacer cell: it adds no
//! character, no byte and no run break.

use vstd::prelude::*;
use vstd::utf8::{encode_scalar, encode_utf8};
use crate::text::string_push;

verus! {

/// A cell colour: the terminal's own background, or another colour by id.
#[derive(Debug, Clone, Copy, PartialEq, Eq, Structural)]
pub enum CellColor {
    Background,
    Color(u32),
}

/// One grid cell: its character, colours and attributes.
#[derive(Debug, Clone, Copy, PartialEq, Eq, Structural)]
pub struct GridCell {
    pub c: char,
    pub fg: CellColor,
    pub bg: CellColor,
    pub inverse: bool,
    pub dim: bool,
    pub bold: bool,
    pub italic: bool,
    /// Any kind of underline.
    pub underline: bool,
    pub strikeout: bool,
    pub hidden: bool,
    /// The trailing half of a wide glyph.
    pub wide_spacer: bool,
}

/// How a run of text is drawn. A `bg` of `Background` is transparent (the
/// terminal surface shows through).
#[derive(Debug, Clone, Copy, PartialEq, Eq, Structural)]
pub struct RunStyle {
    pub fg: CellColor,
    pub bg: CellColor,
    /// Drawn with reduced lightness.
    pub dim: bool,
    pub bold: bool,
    pub italic: bool,
    pub underline: bool,
    pub strikeout: bool,
}

/// A run: this many bytes of the row's text drawn in one style.
#[derive(Debug, Clone, Copy, PartialEq, Eq, Structural)]
pub struct StyledRun {
    pub len: usize,
    pub style: RunStyle,
}

/// The text of a row, the runs covering it and, for each column boundary, the
/// byte offset into the text (one more entry than there are columns).
#[derive(Debug)]
pub struct RowData {
    pub text: String,
    pub runs: Vec<StyledRun>,
    pub prefix: Vec<usize>,
}

/// The style of a cell: inverse swaps its colours first.
pub open spec fn spec_resolve_style(cell: GridCell) -> RunStyle {
    RunStyle {
        fg: if cell.inverse { cell.bg } else { cell.fg },
        bg: if cell.inverse { cell.fg } else { cell.bg },
        dim: cell.dim,
        bold: cell.bold,
        italic: cell.italic,
        underline: cell.underline,
        strikeout: cell.strikeout,
    }
}

pub fn resolve_style(cell: &GridCell) -> (r: RunStyle)
    ensures
        r == spec_resolve_style(*cell),
{
    let (fg, bg) = if cell.inverse { (cell.bg, cell.fg) } else { (cell.fg, cell.bg) };
    RunStyle {
        fg,
        bg,
        dim: cell.dim,
        bold: cell.bold,
        italic: cell.italic,
        underline: cell.underline,
        strikeout: cell.strikeout,
    }
}

/// The character a cell shows: a hidden cell (password masking) and an
/// uninitialised one show a blank.
pub open spec fn glyph(cell: GridCell) -> char {
    if cell.hidden || cell.c == '\0' {
        ' '
    } else {
        cell.c
    }
}

/// The UTF-8 length of a character.
pub open spec fn utf8_len(c: char) -> nat {
    encode_scalar(c as u32).len()
}

/// The text of a row of cells.
pub open spec fn row_text(cells: Seq<GridCell>) -> Seq<char>
    decreases cells.len(),
{
    if cells.len() == 0 {
        Seq::empty()
    } else if cells.last().wide_spacer {
        row_text(cells.drop_last())
    } else {
        row_text(cells.drop_last()).push(glyph(cells.last()))
    }
}

/// The byte offset of each column boundary.
pub open spec fn row_prefix(cells: Seq<GridCell>) -> Seq<nat> {
    Seq::new(cells.len() + 1, |k: int| encode_utf8(row_text(cells.take(k))).len())
}

/// The runs of a row: each cell's glyph joins the previous run when the
/// style is the same, else starts a new one.
pub open spec fn row_runs(cells: Seq<GridCell>) -> Seq<(nat, RunStyle)>
    decreases cells.len(),
{
    if cells.len() == 0 {
        Seq::empty()
    } else {
        let prev = row_runs(cells.drop_last());
        let cell = cells.last();
        if cell.wide_spacer {
            prev
        } else {
            let st = spec_resolve_style(cell);
            let n = utf8_len(glyph(cell));
            if prev.len() > 0 && prev.last().1 == st {
                prev.update(prev.len() - 1, (prev.last().0 + n, st))
            } else {
                prev.push((n, st))
            }
        }
    }
}

/// The total length of runs.
pub open spec fn runs_total(runs: Seq<(nat, RunStyle)>) -> nat
    decreases runs.len(),
{
    if runs.len() == 0 {
        0
    } else {
        runs_total(runs.drop_last()) + runs.last().0
    }
}

pub open spec fn run_views(runs: Seq<StyledRun>) -> Seq<(nat, RunStyle)> {
    runs.map_values(|r: StyledRun| (r.len as nat, r.style))
}

pub proof fn lemma_encode_utf8_push(s: Seq<char>, c: char)
    ensures
        encode_utf8(s.push(c)) == encode_utf8(s) + encode_scalar(c as u32),
    decreases s.len(),
{
    if s.len() == 0 {
        assert(s.push(c).drop_first() =~= Seq::<char>::empty());
        assert(encode_utf8(Seq::<char>::empty()) =~= Seq::<u8>::empty());
        assert(encode_utf8(s) =~= Seq::<u8>::empty());
        assert(encode_utf8(s.push(c)) =~= encode_scalar(c as u32) + Seq::<u8>::empty());
    } else {
        lemma_encode_utf8_push(s.drop_first(), c);
        assert(s.push(c).drop_first() =~= s.drop_first().push(c));
        assert(encode_utf8(s.push(c)) =~= encode_scalar(s[0] as u32) + encode_utf8(s.drop_first().push(c)));
        assert(encode_utf8(s.push(c)) =~= encode_utf8(s) + encode_scalar(c as u32));
    }
}

proof fn lemma_runs_total(cells: Seq<GridCell>)
    ensures
        runs_total(row_runs(cells)) == encode_utf8(row_text(cells)).len(),
    decreases cells.len(),
{
    if cells.len() > 0 {
        lemma_runs_total(cells.drop_last());
        let cell = cells.last();
        if !cell.wide_spacer {
            lemma_encode_utf8_push(row_text(cells.drop_last()), glyph(cell));
            let prev = row_runs(cells.drop_last());
            let st = spec_resolve_style(cell);
            let n = utf8_len(glyph(cell));
            if prev.len() > 0 && prev.last().1 == st {
                let up = prev.update(prev.len() - 1, (prev.last().0 + n, st));
                assert(up.drop_last() =~= prev.drop_last());
            } else {
                assert(prev.push((n, st)).drop_last() =~= prev);
            }
        }
    }
}

/// The runs of a row cover its text exactly: their lengths add up to the
/// text's byte length, which is the last column offset.
pub proof fn law_row_runs_cover_text(cells: Seq<GridCell>)
    ensures
        runs_total(row_runs(cells)) == encode_utf8(row_text(cells)).len(),
        row_prefix(cells).last() == encode_utf8(row_text(cells)).len(),
{
    lemma_runs_total(cells);
    assert(cells.take(cells.len() as int) =~= cells);
}

fn char_utf8_len(c: char) -> (r: usize)
    ensures
        r == utf8_len(c),
        1 <= r <= 4,
{
    proof {
        vstd::utf8::char_is_scalar(c);
    }
    let v = c as u32;
    if v <= 0x7F {
        1
    } else if v <= 0x7FF {
        2
    } else if v <= 0xFFFF {
        3
    } else {
        4
    }
}

fn glyph_of(cell: &GridCell) -> (r: char)
    ensures
        r == glyph(*cell),
{
    if cell.hidden || cell.c == '\0' {
        ' '
    } else {
        cell.c
    }
}

/// The text, runs and column offsets of a row of cells.
pub fn build_row(cells: &[GridCell]) -> (r: RowData)
    requires
        cells@.len() * 4 <= usize::MAX,
    ensures
        r.text@ == row_text(cells@),
        run_views(r.runs@) == row_runs(cells@),
        r.prefix@.map_values(|p: usize| p as nat) == row_prefix(cells@),
{
    let mut text = String::new();
    let mut prefix: Vec<usize> = Vec::new();
    let mut runs: Vec<StyledRun> = Vec::new();
    let mut bytes: usize = 0;
    prefix.push(0);
    proof {
        assert(cells@.take(0) =~= Seq::<GridCell>::empty());
        assert(text@ =~= Seq::<char>::empty());
        assert(encode_utf8(Seq::<char>::empty()) =~= Seq::<u8>::empty());
        assert(run_views(runs@) =~= Seq::<(nat, RunStyle)>::empty());
    }
    let mut i: usize = 0;
    while i < cells.len()
        invariant
            i <= cells@.len(),
            cells@.len() * 4 <= usize::MAX,
            text@ == row_text(cells@.take(i as int)),
            bytes == encode_utf8(text@).len(),
            bytes <= 4 * i,
            run_views(runs@) == row_runs(cells@.take(i as int)),
            runs@.len() > 0 ==> runs@.last().len <= bytes,
            prefix@.len() == i + 1,
            forall|k: int| 0 <= k <= i ==> #[trigger] prefix@[k] == encode_utf8(row_text(cells@.take(k))).len(),
        decreases cells.len() - i,
    {
        let cell = cells[i];
        proof {
            assert(cells@.take(i + 1).drop_last() =~= cells@.take(i as int));
            assert(cells@.take(i + 1).last() == cell);
        }
        if !cell.wide_spacer {
            let st = resolve_style(&cell);
            let g = glyph_of(&cell);
            let n = char_utf8_len(g);
            let k = runs.len();
            let ghost prev = run_views(runs@);
            if k > 0 && runs[k - 1].style == st {
                let last = runs[k - 1];
                runs.set(k - 1, StyledRun { len: last.len + n, style: st });
                assert(run_views(runs@) =~= prev.update(prev.len() - 1, ((prev.last().0 + n) as nat, st)));
            } else {
                runs.push(StyledRun { len: n, style: st });
                assert(run_views(runs@) =~= prev.push((n as nat, st)));
            }
            proof {
                lemma_encode_utf8_push(text@, g);
            }
            string_push(&mut text, g);
            bytes = bytes + n;
        }
        prefix.push(bytes);
        i = i + 1;
    }
    proof {
        assert(cells@.take(cells@.len() as int) =~= cells@);
        assert(prefix@.map_values(|p: usize| p as nat) =~= row_prefix(cells@));
    }
    RowData { text, runs, prefix }
}

/// The grid line shown in the first visible row: the newest screen, moved up
/// into the history by the display offset (history lines are negative).
pub open spec fn spec_viewport_top(bottommost: int, screen_lines: nat, display_offset: nat) -> int {
    bottommost - screen_lines + 1 - display_offset
}

pub fn viewport_top(bottommost: i32, screen_lines: usize, display_offset: usize) -> (r: i32)
    requires
        screen_lines <= i32::MAX,
        display_offset <= i32::MAX,
        i32::MIN <= spec_viewport_top(bottommost as int, screen_lines as nat, display_offset as nat) <= i32::MAX,
    ensures
        r as int == spec_viewport_top(bottommost as int, screen_lines as nat, display_offset as nat),
{
    let v: i64 = bottommost as i64 - screen_lines as i64 + 1 - display_offset as i64;
    v as i32
}

/// Where the caret is drawn: its visible row and column, when the program
/// shows it and it lies inside the viewport.
pub open spec fn spec_visible_cursor(
    show: bool,
    cursor_line: int,
    cursor_col: nat,
    top: int,
    screen_lines: nat,
    num_cols: nat,
) -> Option<(nat, nat)> {
    let row = cursor_line - top;
    if show && 0 <= row < screen_lines && cursor_col < num_cols {
        Some((row as nat, cursor_col))
    } else {
        None
    }
}

pub fn visible_cursor(
    show: bool,
    cursor_line: i32,
    cursor_col: usize,
    top: i32,
    screen_lines: usize,
    num_cols: usize,
) -> (r: Option<(usize, usize)>)
    ensures
        match spec_visible_cursor(show, cursor_line as int, cursor_col as nat, top as int, screen_lines as nat, num_cols as nat) {
            Some((row, col)) => r == Some((row as usize, col as usize)),
            None => r is None,
        },
{
    if !show {
        return None;
    }
    let row: i64 = cursor_line as i64 - top as i64;
    if row >= 0 && (row as u64) < (screen_lines as u64) && cursor_col < num_cols {
        Some((row as usize, cursor_col))
    } else {
        None
    }
}

/// The byte offset of column `col`, the text's end for a column past the
/// last boundary.
pub open spec fn col_byte(prefix: Seq<usize>, col: nat, text_len: nat) -> nat {
    if col < prefix.len() {
        prefix[col as int] as nat
    } else {
        text_len
    }
}

/// The bytes of the row at grid line `line` that the selection from `start`
/// to `end` (grid line and column, end column included) covers: all of a row
/// strictly inside, from the start column on its first row, up to and
/// including the end column on its last. `None` when the row is outside.
pub open spec fn spec_row_selection(
    line: int,
    start: (int, nat),
    end: (int, nat),
    prefix: Seq<usize>,
    text_len: nat,
) -> Option<(nat, nat)> {
    if start.0 <= line <= end.0 {
        let cols: nat = if prefix.len() > 0 { (prefix.len() - 1) as nat } else { 0 };
        let from_col = if line == start.0 { start.1 } else { 0 };
        let to_col = if line == end.0 {
            if end.1 + 1 < cols { (end.1 + 1) as nat } else { cols }
        } else {
            cols
        };
        let from = col_byte(prefix, from_col, text_len);
        let to = col_byte(prefix, to_col, text_len);
        Some((from, if to < from { from } else { to }))
    } else {
        None
    }
}

pub fn row_selection(
    line: i32,
    selection: Option<((i32, usize), (i32, usize))>,
    prefix: &[usize],
    text_len: usize,
) -> (r: Option<(usize, usize)>)
    requires
        selection matches Some((_, e)) ==> e.1 < usize::MAX,
    ensures
        match selection {
            None => r is None,
            Some((s, e)) => match spec_row_selection(
                line as int,
                (s.0 as int, s.1 as nat),
                (e.0 as int, e.1 as nat),
                prefix@,
                text_len as nat,
            ) {
                None => r is None,
                Some((from, to)) => r == Some((from as usize, to as usize)),
            },
        },
{
    let (start, end) = match selection {
        Some(sel) => sel,
        None => return None,
    };
    if !(start.0 <= line && line <= end.0) {
        return None;
    }
    let cols: usize = if prefix.len() > 0 { prefix.len() - 1 } else { 0 };
    let from_col = if line == start.0 { start.1 } else { 0 };
    let to_col = if line == end.0 {
        if end.1 + 1 < cols { end.1 + 1 } else { cols }
    } else {
        cols
    };
    let from = if from_col < prefix.len() { prefix[from_col] } else { text_len };
    let to = if to_col < prefix.len() { prefix[to_col] } else { text_len };
    Some((from, if to < from { from } else { to }))
}

} // verus!
