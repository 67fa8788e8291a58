use verve::ssh::log_highlight::{apply_log_highlights, highlight_runs, HighlightPalette};
use verve::ssh::terminal::TextRun;

const FG: u32 = 7;

const PALETTE: HighlightPalette =
    HighlightPalette { timestamp: 101, error: 102, warn: 103, info: 104, debug: 105, value: 106 };

fn base_run(len: usize) -> TextRun {
    TextRun { len, color: FG, background: None, style: 0 }
}

fn color_at(out: &[TextRun], byte_idx: usize) -> u32 {
    let mut pos = 0;
    for r in out {
        if byte_idx < pos + r.len {
            return r.color;
        }
        pos += r.len;
    }
    panic!("byte {byte_idx} past end");
}

#[test]
fn log_highlights_recolors_levels_and_timestamps() {
    let line = "2026-08-06 06:21:18 INFO  starting up";
    let runs = vec![base_run(line.len())];
    let out = apply_log_highlights(line, &runs, &PALETTE);

    assert_eq!(out.iter().map(|r| r.len).sum::<usize>(), line.len());
    assert_eq!(color_at(&out, 0), PALETTE.timestamp);
    assert_eq!(color_at(&out, 10), PALETTE.timestamp);
    assert_eq!(color_at(&out, 20), PALETTE.info);
    let starting = line.find("starting").unwrap();
    assert_eq!(color_at(&out, starting), FG);
}

#[test]
fn log_highlights_error_and_warn_colors() {
    for (word, want) in [
        ("ERROR", PALETTE.error),
        ("FATAL", PALETTE.error),
        ("WARN", PALETTE.warn),
        ("WARNING", PALETTE.warn),
        ("DEBUG", PALETTE.debug),
        ("TRACE", PALETTE.debug),
    ] {
        let line = format!("2026-01-01 00:00:00 {word} something");
        let runs = vec![base_run(line.len())];
        let out = apply_log_highlights(&line, &runs, &PALETTE);
        assert_eq!(out.iter().map(|r| r.len).sum::<usize>(), line.len());
        let start = line.find(word).unwrap();
        let mut pos = 0;
        let mut got = FG;
        for r in &out {
            if start < pos + r.len {
                got = r.color;
                break;
            }
            pos += r.len;
        }
        assert_eq!(got, want, "wrong color for {word}");
    }
}

#[test]
fn log_highlights_passthrough_when_no_match() {
    let line = "plain uncolored output";
    let runs = vec![base_run(line.len())];
    let out = apply_log_highlights(line, &runs, &PALETTE);
    assert_eq!(out.len(), 1);
    assert_eq!(out[0].len, line.len());
    assert_eq!(out[0].color, FG);
}

#[test]
fn log_highlights_exact_pieces() {
    // "x true y": the JSON literal in the middle is split out and recoloured.
    let line = "x true y";
    let runs = vec![base_run(line.len())];
    let out = apply_log_highlights(line, &runs, &PALETTE);
    let pieces: Vec<(usize, u32)> = out.iter().map(|r| (r.len, r.color)).collect();
    assert_eq!(pieces, vec![(2, FG), (4, PALETTE.value), (2, FG)]);
}

#[test]
fn log_highlights_keep_other_attributes_and_total_length() {
    // Two base runs with different backgrounds; the timestamp spans both.
    let line = "12:00:01 ok";
    let runs = vec![
        TextRun { len: 4, color: FG, background: Some(9), style: 2 },
        TextRun { len: 7, color: FG, background: None, style: 0 },
    ];
    let out = apply_log_highlights(line, &runs, &PALETTE);
    assert_eq!(out.iter().map(|r| r.len).sum::<usize>(), line.len());
    assert_eq!(
        out,
        vec![
            TextRun { len: 4, color: PALETTE.timestamp, background: Some(9), style: 2 },
            TextRun { len: 4, color: PALETTE.timestamp, background: None, style: 0 },
            TextRun { len: 3, color: FG, background: None, style: 0 },
        ]
    );
}

#[test]
fn highlight_runs_merges_same_look_and_drops_empty() {
    // No match inside these runs, but there is a match elsewhere: adjacent runs
    // that look alike merge and the empty one disappears.
    let runs = vec![base_run(2), base_run(0), base_run(3)];
    let caps = vec![vec![Some((5, 5)), None, None, None, None, None, None]];
    let out = highlight_runs(5, &runs, &caps, &PALETTE);
    assert_eq!(out, vec![base_run(5)]);
}

#[test]
fn highlight_runs_without_captures_returns_runs() {
    let runs = vec![base_run(2), base_run(0), base_run(3)];
    let out = highlight_runs(5, &runs, &Vec::new(), &PALETTE);
    assert_eq!(out, runs);
}

#[test]
fn highlight_runs_later_match_paints_over_earlier() {
    let runs = vec![base_run(6)];
    let caps = vec![
        vec![Some((0, 4)), None, Some((0, 4)), None, None, None, None],
        vec![Some((2, 6)), None, None, None, Some((2, 6)), None, None],
    ];
    let out = highlight_runs(6, &runs, &caps, &PALETTE);
    let pieces: Vec<(usize, u32)> = out.iter().map(|r| (r.len, r.color)).collect();
    assert_eq!(pieces, vec![(2, PALETTE.error), (4, PALETTE.info)]);
}
