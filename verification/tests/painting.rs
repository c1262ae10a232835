use text_rain::field::TrailField;
use text_rain::line::Line;
use text_rain::render::{compose, draw, CellWrite, Tone};

fn line(text: &str, trails: Vec<u32>, x: u32, y: u32) -> Line {
    Line { text: text.to_string(), trails, x, y }
}

fn cell(col: u32, row: u32, glyph: char, tone: Tone) -> CellWrite {
    CellWrite { col, row, glyph, tone }
}

/// 4 columns, 5 rows; column c holds the letters from ('a' + 5c) down.
fn letters() -> TrailField {
    let columns = vec![
        vec!['a', 'b', 'c', 'd', 'e'],
        vec!['f', 'g', 'h', 'i', 'j'],
        vec!['k', 'l', 'm', 'n', 'o'],
        vec!['p', 'q', 'r', 's', 't'],
    ];
    TrailField::from_columns(columns).unwrap()
}

#[test]
fn draw_nothing_for_no_lines() {
    assert!(draw(&Vec::new(), &letters(), Tone::White, Tone::Green).is_empty());
}

#[test]
fn draw_head_then_trails_from_the_field() {
    let lines = vec![line("XY", vec![2, 1], 1, 3)];
    let writes = draw(&lines, &letters(), Tone::White, Tone::Green);
    assert_eq!(
        writes,
        vec![
            cell(1, 3, 'X', Tone::White),
            cell(2, 3, 'Y', Tone::White),
            cell(1, 2, 'h', Tone::Green),
            cell(1, 1, 'g', Tone::Green),
            cell(2, 2, 'm', Tone::Green),
        ]
    );
}

#[test]
fn draw_stops_trails_at_the_top() {
    let lines = vec![line("X", vec![4], 0, 1)];
    let writes = draw(&lines, &letters(), Tone::White, Tone::Green);
    assert_eq!(writes, vec![cell(0, 1, 'X', Tone::White), cell(0, 0, 'a', Tone::Green)]);
    let lines = vec![line("X", vec![4], 0, 0)];
    let writes = draw(&lines, &letters(), Tone::White, Tone::Green);
    assert_eq!(writes, vec![cell(0, 0, 'X', Tone::White)]);
}

#[test]
fn draw_below_the_screen_paints_only_the_trail_cells_in_sight() {
    // head in row 6 of a screen of 5 rows: the trail reaches rows 5, 4 and 3
    let lines = vec![line("X", vec![3], 2, 6)];
    let writes = draw(&lines, &letters(), Tone::White, Tone::Green);
    assert_eq!(writes, vec![cell(2, 4, 'o', Tone::Green), cell(2, 3, 'n', Tone::Green)]);
    let lines = vec![line("X", vec![3], 2, 9)];
    assert!(draw(&lines, &letters(), Tone::White, Tone::Green).is_empty());
}

#[test]
fn draw_crops_at_the_right_edge() {
    let lines = vec![line("WXYZ", vec![1, 1, 1, 1], 2, 1)];
    let writes = draw(&lines, &letters(), Tone::Grey, Tone::Grey);
    assert_eq!(
        writes,
        vec![
            cell(2, 1, 'W', Tone::Grey),
            cell(3, 1, 'X', Tone::Grey),
            cell(2, 0, 'k', Tone::Grey),
            cell(3, 0, 'p', Tone::Grey),
        ]
    );
}

#[test]
fn draw_far_off_the_screen_paints_nothing() {
    let lines = vec![line("abc", vec![5, 5, 5], u32::MAX, u32::MAX)];
    assert!(draw(&lines, &letters(), Tone::White, Tone::Green).is_empty());
}

#[test]
fn draw_never_leaves_the_screen() {
    let field = letters();
    for y in 0..12u32 {
        for x in 0..6u32 {
            let lines = vec![line("abc", vec![7, 2, 9], x, y), line("", vec![], x, y)];
            for write in draw(&lines, &field, Tone::White, Tone::Green) {
                assert!(write.col < 4 && write.row < 5);
                if write.tone == Tone::Green {
                    assert_eq!(Some(write.glyph), field.get(write.col, write.row));
                    assert!(write.row < y);
                } else {
                    assert_eq!(write.row, y);
                }
            }
        }
    }
}

#[test]
fn draw_takes_the_lines_in_order() {
    let lines = vec![line("A", vec![1], 0, 1), line("B", vec![1], 0, 2)];
    let writes = draw(&lines, &letters(), Tone::White, Tone::Green);
    assert_eq!(
        writes,
        vec![
            cell(0, 1, 'A', Tone::White),
            cell(0, 0, 'a', Tone::Green),
            cell(0, 2, 'B', Tone::White),
            cell(0, 1, 'b', Tone::Green),
        ]
    );
}

#[test]
fn draw_trails_without_text_columns() {
    // more trails than characters: the trails are drawn all the same
    let lines = vec![line("A", vec![1, 1], 0, 1)];
    let writes = draw(&lines, &letters(), Tone::White, Tone::Green);
    assert_eq!(
        writes,
        vec![cell(0, 1, 'A', Tone::White), cell(0, 0, 'a', Tone::Green), cell(1, 0, 'f', Tone::Green)]
    );
}

#[test]
fn compose_paints_the_rain_first_and_the_text_over_it() {
    let rain = vec![line("r", vec![1], 3, 2)];
    let text = vec![line("T", vec![1], 3, 2)];
    let writes = compose(&rain, &text, &letters());
    assert_eq!(
        writes,
        vec![
            cell(3, 2, 'r', Tone::Grey),
            cell(3, 1, 'q', Tone::Grey),
            cell(3, 2, 'T', Tone::White),
            cell(3, 1, 'q', Tone::Green),
        ]
    );
}

#[test]
fn cell_write_new_fills_the_fields() {
    assert_eq!(CellWrite::new(3, 4, 'z', Tone::Green), cell(3, 4, 'z', Tone::Green));
}
