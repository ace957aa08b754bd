use graph_runtime::messages::Message;
use graph_runtime::router::save_text_art;
use graph_runtime::ascii::{average_color, cell_span, color_to_hex, glyph_for_level, glyph_strokes, grid_cells, push_cell, text_art_svg, Stroke, TextArtRow, CELL_SIZE, TOP_LEVEL};

fn raster(width: u32, height: u32, pixel: impl Fn(u32, u32) -> [u8; 4]) -> Vec<u8> {
    let mut data = Vec::new();
    for y in 0..height {
        for x in 0..width {
            data.extend_from_slice(&pixel(x, y));
        }
    }
    data
}

fn row(y: &str, levels: &[usize]) -> TextArtRow {
    TextArtRow { y: y.to_string(), levels: levels.to_vec() }
}

const HEAD: &str = "<?xml version=\"1.0\" encoding=\"UTF-8\" standalone=\"no\"?><svg xmlns=\"http://www.w3.org/2000/svg\" width=\"12\" height=\"10\"><style>text{font-family:'Courier New',Courier,monospace;font-size:10px;white-space:pre;}</style><rect width=\"100%\" height=\"100%\" fill=\"black\" />";

#[test]
fn ramp_runs_from_blank_to_the_densest_glyph() {
    let glyphs: String = (0..=TOP_LEVEL).map(glyph_for_level).collect();
    assert_eq!(glyphs, " .,:;i1tfLCG08@");
    assert_eq!(glyph_for_level(15), '@');
    assert_eq!(glyph_for_level(usize::MAX), '@');
}

#[test]
fn grid_has_at_least_one_cell() {
    assert_eq!(CELL_SIZE, 8);
    assert_eq!(grid_cells(0, 8), 1);
    assert_eq!(grid_cells(7, 8), 1);
    assert_eq!(grid_cells(8, 8), 1);
    assert_eq!(grid_cells(15, 8), 1);
    assert_eq!(grid_cells(16, 8), 2);
    assert_eq!(grid_cells(100, 32), 3);
    assert_eq!(grid_cells(u32::MAX, 1), u32::MAX);
}

#[test]
fn cell_spans_stop_at_the_edge() {
    assert_eq!(cell_span(0, 8, 20), (0, 8));
    assert_eq!(cell_span(1, 8, 20), (8, 16));
    assert_eq!(cell_span(0, 8, 5), (0, 5));
    assert_eq!(cell_span(0, 8, 0), (0, 0));
    assert_eq!(cell_span(u32::MAX / 8 - 1, 8, u32::MAX), (u32::MAX - 15, u32::MAX - 7));
}

#[test]
fn colour_is_averaged_and_rounded_down() {
    let data = raster(3, 2, |x, y| [(x * 10 + y) as u8, 255, if x == 0 { 1 } else { 0 }, 77]);
    assert_eq!(average_color(&data, 3, 2, 0, 3, 0, 2), [(0 + 10 + 20 + 1 + 11 + 21) / 6, 255, 0]);
    assert_eq!(average_color(&data, 3, 2, 1, 2, 1, 2), [11, 255, 0]);
    assert_eq!(average_color(&data, 3, 2, 0, 1, 0, 2), [0, 255, 1]);
    assert_eq!(average_color(&data, 3, 2, 2, 2, 0, 2), [0, 0, 0]);
    assert_eq!(average_color(&data, 3, 2, 0, 3, 1, 1), [0, 0, 0]);
}

#[test]
fn colours_are_written_in_two_small_hex_digits() {
    assert_eq!(color_to_hex([0, 10, 255]), "#000aff");
    assert_eq!(color_to_hex([171, 205, 239]), "#abcdef");
    assert_eq!(color_to_hex([16, 1, 160]), "#1001a0");
}

#[test]
fn darkest_cell_is_a_blank_and_others_are_coloured_spans() {
    let mut out = String::from(">");
    push_cell(&mut out, 0, [1, 2, 3]);
    assert_eq!(out, "> ");
    push_cell(&mut out, 14, [255, 128, 0]);
    assert_eq!(out, "> <tspan fill=\"#ff8000\">@</tspan>");
    let mut out = String::new();
    push_cell(&mut out, 5, [0, 0, 0]);
    assert_eq!(out, "<tspan fill=\"#000000\">i</tspan>");
}

#[test]
fn text_art_is_written_row_by_row() {
    let data = raster(16, 8, |x, _| if x < 8 { [255, 0, 0, 255] } else { [0, 0, 255, 255] });
    let svg = text_art_svg(&data, 16, 8, "12", "10", &vec![row("10", &[0, 9])]).unwrap();
    assert_eq!(svg, format!("{HEAD}<text x=\"0\" y=\"10\" xml:space=\"preserve\"> <tspan fill=\"#0000ff\">L</tspan></text></svg>"));

    let svg = text_art_svg(&data, 16, 8, "12", "10", &vec![row("10", &[3, 99])]).unwrap();
    assert_eq!(
        svg,
        format!("{HEAD}<text x=\"0\" y=\"10\" xml:space=\"preserve\"><tspan fill=\"#ff0000\">:</tspan><tspan fill=\"#0000ff\">@</tspan></text></svg>")
    );
}

#[test]
fn text_art_of_several_rows_and_ragged_edges() {
    let data = raster(9, 17, |_, y| [y as u8, 0, 0, 255]);
    let rows = vec![row("10", &[1]), row("20", &[2])];
    let svg = text_art_svg(&data, 9, 17, "6", "20", &rows).unwrap();
    let head = HEAD.replace("width=\"12\" height=\"10\"", "width=\"6\" height=\"20\"");
    assert_eq!(
        svg,
        format!(
            "{head}<text x=\"0\" y=\"10\" xml:space=\"preserve\"><tspan fill=\"#030000\">.</tspan></text><text x=\"0\" y=\"20\" xml:space=\"preserve\"><tspan fill=\"#0b0000\">,</tspan></text></svg>"
        )
    );
}

#[test]
fn text_art_of_an_empty_raster_is_one_black_cell() {
    let svg = text_art_svg(&Vec::new(), 0, 0, "6", "10", &vec![row("10", &[4])]).unwrap();
    let head = HEAD.replace("width=\"12\"", "width=\"6\"");
    assert_eq!(svg, format!("{head}<text x=\"0\" y=\"10\" xml:space=\"preserve\"><tspan fill=\"#000000\">;</tspan></text></svg>"));
}

#[test]
fn text_art_needs_a_full_buffer_and_fitting_rows() {
    let data = raster(16, 8, |_, _| [0, 0, 0, 0]);
    assert_eq!(text_art_svg(&data[1..].to_vec(), 16, 8, "12", "10", &vec![row("10", &[0, 0])]), None);
    assert_eq!(text_art_svg(&data, 16, 8, "12", "10", &vec![row("10", &[0])]), None);
    assert_eq!(text_art_svg(&data, 16, 8, "12", "10", &vec![row("10", &[0, 0, 0])]), None);
    assert_eq!(text_art_svg(&data, 16, 8, "12", "10", &vec![]), None);
    assert_eq!(text_art_svg(&data, 16, 8, "12", "10", &vec![row("10", &[0, 0]), row("20", &[0, 0])]), None);
    assert_eq!(text_art_svg(&data, u32::MAX, u32::MAX, "12", "10", &vec![row("10", &[0, 0])]), None);
    assert!(text_art_svg(&data, 16, 8, "12", "10", &vec![row("10", &[0, 0])]).is_some());
}

#[test]
fn glyphs_are_drawn_with_strokes_in_tenths() {
    let stroke = |x, y, width, height| Stroke { x, y, width, height };
    assert!(glyph_strokes(' ').is_empty());
    assert_eq!(glyph_strokes('.'), vec![stroke(4, 8, 2, 2)]);
    assert_eq!(glyph_strokes(','), vec![stroke(4, 8, 2, 4)]);
    assert_eq!(glyph_strokes(':'), vec![stroke(4, 2, 2, 2), stroke(4, 8, 2, 2)]);
    assert_eq!(glyph_strokes(';'), vec![stroke(4, 2, 2, 2), stroke(4, 8, 2, 4)]);
    assert_eq!(glyph_strokes('i'), vec![stroke(4, 1, 2, 1), stroke(4, 4, 2, 6)]);
    assert_eq!(glyph_strokes('1'), vec![stroke(4, 0, 2, 10)]);
    assert_eq!(glyph_strokes('t'), vec![stroke(4, 0, 2, 10), stroke(2, 3, 6, 2)]);
    assert_eq!(glyph_strokes('f'), vec![stroke(4, 0, 2, 10), stroke(4, 0, 4, 2), stroke(2, 4, 6, 2)]);
    assert_eq!(glyph_strokes('L'), vec![stroke(2, 0, 2, 10), stroke(2, 8, 6, 2)]);
    assert_eq!(glyph_strokes('C'), vec![stroke(2, 0, 2, 10), stroke(2, 0, 6, 2), stroke(2, 8, 6, 2)]);
    assert_eq!(glyph_strokes('G'), vec![stroke(2, 0, 2, 10), stroke(2, 0, 6, 2), stroke(2, 8, 6, 2), stroke(6, 6, 2, 4)]);
    assert_eq!(glyph_strokes('0'), vec![stroke(2, 0, 2, 10), stroke(6, 0, 2, 10), stroke(2, 0, 6, 2), stroke(2, 8, 6, 2)]);
    assert_eq!(glyph_strokes('8'), vec![stroke(2, 0, 2, 10), stroke(6, 0, 2, 10), stroke(2, 0, 6, 2), stroke(2, 4, 6, 2), stroke(2, 8, 6, 2)]);
    assert_eq!(glyph_strokes('@'), vec![stroke(1, 1, 8, 8), stroke(3, 3, 4, 4)]);
    assert_eq!(glyph_strokes('x'), vec![stroke(2, 4, 6, 2)]);
}

#[test]
fn colour_of_a_large_block_is_averaged() {
    let data = raster(300, 200, |x, y| [if (x + y) % 2 == 0 { 255 } else { 254 }, 255, (x % 7) as u8, 0]);
    let blue_of = |columns: std::ops::Range<u32>| (columns.clone().map(|x| x % 7).sum::<u32>() / columns.len() as u32) as u8;
    assert_eq!(average_color(&data, 300, 200, 0, 300, 0, 200), [254, 255, blue_of(0..300)]);
    assert_eq!(average_color(&data, 300, 200, 10, 290, 100, 200), [254, 255, blue_of(10..290)]);
    assert_eq!(average_color(&data, 300, 200, 0, 1, 0, 200), [254, 255, 0]);
}

#[test]
fn raster_handed_over_becomes_the_saved_drawing() {
    let data = raster(16, 8, |x, _| if x < 8 { [255, 0, 0, 255] } else { [0, 0, 255, 255] });
    let rows = vec![row("10", &[0, 9])];
    let hand_over: Message<u8> = Message::SaveTextArt { name: "poster.svg".to_string(), data: data.clone(), width: 16, height: 8 };
    let expected = text_art_svg(&data, 16, 8, "12", "10", &rows).unwrap();
    assert_eq!(save_text_art(hand_over, "12", "10", &rows), Ok(Message::TriggerSaveFile { name: "poster.svg".to_string(), content: expected.into_bytes() }));

    let hand_over: Message<u8> = Message::SaveTextArt { name: "poster.svg".to_string(), data: data.clone(), width: 16, height: 8 };
    let short = vec![row("10", &[0])];
    assert_eq!(save_text_art(hand_over, "12", "10", &short), Err(Message::SaveTextArt { name: "poster.svg".to_string(), data, width: 16, height: 8 }));
    assert_eq!(save_text_art(Message::<u8>::SendGraph, "12", "10", &rows), Err(Message::SendGraph));
}
