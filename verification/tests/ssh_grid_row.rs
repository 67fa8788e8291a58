use verve::ssh::grid_row::{
    build_row, resolve_style, row_selection, viewport_top, visible_cursor, CellColor, GridCell, RunStyle, StyledRun,
};

fn cell(c: char) -> GridCell {
    GridCell {
        c,
        fg: CellColor::Color(7),
        bg: CellColor::Background,
        inverse: false,
        dim: false,
        bold: false,
        italic: false,
        underline: false,
        strikeout: false,
        hidden: false,
        wide_spacer: false,
    }
}

#[test]
fn inverse_swaps_colours() {
    let c = GridCell { inverse: true, ..cell('x') };
    let st = resolve_style(&c);
    assert_eq!(st.fg, CellColor::Background);
    assert_eq!(st.bg, CellColor::Color(7));
}

#[test]
fn row_text_runs_and_offsets() {
    let bold = GridCell { bold: true, ..cell('c') };
    let wide = cell('中');
    let spacer = GridCell { wide_spacer: true, bold: true, ..cell(' ') };
    let hidden = GridCell { hidden: true, ..cell('p') };
    let blank = cell('\0');
    let cells = vec![cell('a'), cell('b'), bold, wide, spacer, hidden, blank];
    let row = build_row(&cells);
    assert_eq!(row.text, "abc中  ");
    assert_eq!(row.prefix, vec![0, 1, 2, 3, 6, 6, 7, 8]);
    let plain = resolve_style(&cell('a'));
    let bold_style = RunStyle { bold: true, ..plain };
    assert_eq!(
        row.runs,
        vec![
            StyledRun { len: 2, style: plain },
            StyledRun { len: 1, style: bold_style },
            StyledRun { len: 5, style: plain },
        ]
    );
    assert_eq!(row.runs.iter().map(|r| r.len).sum::<usize>(), row.text.len());
}

#[test]
fn empty_row() {
    let row = build_row(&[]);
    assert_eq!(row.text, "");
    assert!(row.runs.is_empty());
    assert_eq!(row.prefix, vec![0]);
}

#[test]
fn viewport_and_cursor() {
    // 24 visible lines, newest screen: lines 0..=23.
    assert_eq!(viewport_top(23, 24, 0), 0);
    // Scrolled 5 lines into history.
    assert_eq!(viewport_top(23, 24, 5), -5);
    assert_eq!(visible_cursor(true, 3, 7, 0, 24, 80), Some((3, 7)));
    assert_eq!(visible_cursor(false, 3, 7, 0, 24, 80), None);
    assert_eq!(visible_cursor(true, 3, 7, -5, 24, 80), Some((8, 7)));
    assert_eq!(visible_cursor(true, 30, 7, 0, 24, 80), None);
    assert_eq!(visible_cursor(true, 3, 80, 0, 24, 80), None);
    assert_eq!(visible_cursor(true, -1, 0, 0, 24, 80), None);
}

#[test]
fn selection_bytes_per_row() {
    // "a中b": columns a | 中 | spacer | b.
    let prefix = [0, 1, 4, 4, 5];
    let sel = Some(((2, 1), (4, 2)));
    assert_eq!(row_selection(1, sel, &prefix, 5), None);
    // First row: from the start column to the end of the row.
    assert_eq!(row_selection(2, sel, &prefix, 5), Some((1, 5)));
    // A row strictly inside: all of it.
    assert_eq!(row_selection(3, sel, &prefix, 5), Some((0, 5)));
    // Last row: up to and including the end column (the spacer).
    assert_eq!(row_selection(4, sel, &prefix, 5), Some((0, 4)));
    assert_eq!(row_selection(5, sel, &prefix, 5), None);
    assert_eq!(row_selection(2, None, &prefix, 5), None);
    // One-row selection past the end of a short row.
    assert_eq!(row_selection(0, Some(((0, 9), (0, 12))), &prefix, 5), Some((5, 5)));
}
