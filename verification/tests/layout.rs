use falsedev_api::text::{draw_text, split_lines, MeasuredLine, Placement};

fn line(text: &str, width: u32) -> MeasuredLine {
    MeasuredLine { text: text.to_string(), width }
}

#[test]
fn two_lines_straddle_the_anchor() {
    let lines = vec![line("Hello", 40), line("World!", 61)];
    let placed = draw_text(&lines, 20 * 64, &(100, 100));
    assert_eq!(
        placed,
        vec![Placement { line: 0, x: 80, y: 90 }, Placement { line: 1, x: 70, y: 110 }]
    );
}

#[test]
fn half_pixels_round_away_from_the_anchor() {
    let lines = vec![line("a", 10), line("b", 10)];
    let placed = draw_text(&lines, 21 * 64, &(100, 100));
    assert_eq!(placed[0].y, 89);
    assert_eq!(placed[1].y, 111);
    let placed = draw_text(&lines, 20 * 64 + 31, &(100, 100));
    assert_eq!((placed[0].y, placed[1].y), (90, 110));
    let placed = draw_text(&lines, 20 * 64 + 64, &(100, 100));
    assert_eq!((placed[0].y, placed[1].y), (89, 111));
}

#[test]
fn a_single_line_sits_on_the_anchor() {
    let placed = draw_text(&vec![line("only", 33)], 1234, &(50, 60));
    assert_eq!(placed, vec![Placement { line: 0, x: 34, y: 60 }]);
}

#[test]
fn empty_lines_are_skipped_but_counted() {
    let lines = vec![line("top", 30), line("", 0), line("bottom", 60)];
    let placed = draw_text(&lines, 10 * 64, &(100, 100));
    assert_eq!(
        placed,
        vec![Placement { line: 0, x: 85, y: 90 }, Placement { line: 2, x: 70, y: 110 }]
    );
}

#[test]
fn no_lines_place_nothing() {
    assert_eq!(draw_text(&vec![], 640, &(1, 1)), vec![]);
    assert_eq!(draw_text(&vec![line("", 0)], 640, &(1, 1)), vec![]);
}

#[test]
fn wide_lines_start_left_of_the_canvas() {
    let placed = draw_text(&vec![line("wide", 300)], 640, &(100, 5));
    assert_eq!(placed, vec![Placement { line: 0, x: -50, y: 5 }]);
}

#[test]
fn tall_stacks_rise_above_the_canvas() {
    let lines = vec![line("a", 2), line("b", 2), line("c", 2)];
    let placed = draw_text(&lines, 30 * 64, &(10, 10));
    assert_eq!(placed[0].y, -20);
    assert_eq!(placed[1].y, 10);
    assert_eq!(placed[2].y, 40);
}

#[test]
fn split_lines_at_line_feeds() {
    assert_eq!(split_lines("one\ntwo\nthree"), vec!["one", "two", "three"]);
    assert_eq!(split_lines("one"), vec!["one"]);
    assert_eq!(split_lines(""), Vec::<String>::new());
}

#[test]
fn split_lines_keeps_empty_lines() {
    assert_eq!(split_lines("a\n\nb"), vec!["a", "", "b"]);
    assert_eq!(split_lines("\n"), vec![""]);
    assert_eq!(split_lines("\n\nx"), vec!["", "", "x"]);
}

#[test]
fn split_lines_ignores_a_final_line_feed() {
    assert_eq!(split_lines("a\nb\n"), vec!["a", "b"]);
    assert_eq!(split_lines("a\n\n"), vec!["a", ""]);
}

#[test]
fn split_lines_drops_carriage_returns_before_line_feeds() {
    assert_eq!(split_lines("a\r\nb\r\n"), vec!["a", "b"]);
    assert_eq!(split_lines("a\rb\nc\r"), vec!["a\rb", "c\r"]);
    assert_eq!(split_lines("\r\n"), vec![""]);
}

#[test]
fn split_lines_agrees_with_std() {
    for text in ["", "x", "x\n", "\nx", "a\r\n\r\nb", "h\u{e9}llo\nw\u{f6}rld\n", "\r", "a\n\r"] {
        let expected: Vec<String> = text.lines().map(|l| l.to_string()).collect();
        assert_eq!(split_lines(text), expected, "{:?}", text);
    }
}

#[test]
fn wrapped_text_is_laid_out_line_by_line() {
    let lines: Vec<MeasuredLine> = split_lines("Memory safety\nwithout garbage\ncollection.")
        .into_iter()
        .map(|text| {
            let width = 10 * text.chars().count() as u32;
            MeasuredLine { text, width }
        })
        .collect();
    let placed = draw_text(&lines, 16 * 64, &(200, 50));
    assert_eq!(
        placed,
        vec![
            Placement { line: 0, x: 135, y: 34 },
            Placement { line: 1, x: 125, y: 50 },
            Placement { line: 2, x: 145, y: 66 },
        ]
    );
}

#[test]
fn origin_is_the_start_on_the_canvas() {
    assert_eq!(Placement { line: 0, x: 80, y: 90 }.origin(), Some((80, 90)));
    assert_eq!(Placement { line: 0, x: 0, y: 0 }.origin(), Some((0, 0)));
    let far = Placement { line: 0, x: u32::MAX as i64, y: u32::MAX as i128 };
    assert_eq!(far.origin(), Some((u32::MAX, u32::MAX)));
}

#[test]
fn a_line_that_starts_off_the_canvas_has_no_origin() {
    assert_eq!(Placement { line: 0, x: -1, y: 5 }.origin(), None);
    assert_eq!(Placement { line: 0, x: 5, y: -1 }.origin(), None);
    assert_eq!(Placement { line: 0, x: u32::MAX as i64 + 1, y: 5 }.origin(), None);
    assert_eq!(Placement { line: 0, x: 5, y: u32::MAX as i128 + 1 }.origin(), None);
    let placed = draw_text(&vec![line("wide", 300)], 640, &(100, 5));
    assert_eq!(placed[0].origin(), None);
}
