//! Text art: a raster transcribed into characters, darker cells into
//! lighter glyphs, each in the average colour of its cell.

use vstd::prelude::*;

verus! {

/// The glyphs from the darkest cell to the brightest.
pub open spec fn ramp() -> Seq<char> {
    seq![' ', '.', ',', ':', ';', 'i', '1', 't', 'f', 'L', 'C', 'G', '0', '8', '@']
}

/// The brightest level.
pub const TOP_LEVEL: usize = 14;

/// Side of the square of pixels that one character of an exported text art
/// stands for.
pub const CELL_SIZE: u32 = 8;

/// The glyph of a brightness level; a level beyond the brightest counts as
/// the brightest.
pub open spec fn glyph_of(level: int) -> char {
    if level >= 14 {
        ramp()[14]
    } else if level < 0 {
        ramp()[0]
    } else {
        ramp()[level]
    }
}

/// The glyph of a brightness level.
pub fn glyph_for_level(level: usize) -> (r: char)
    ensures
        r == glyph_of(level as int),
{
    if level == 0 {
        ' '
    } else if level == 1 {
        '.'
    } else if level == 2 {
        ','
    } else if level == 3 {
        ':'
    } else if level == 4 {
        ';'
    } else if level == 5 {
        'i'
    } else if level == 6 {
        '1'
    } else if level == 7 {
        't'
    } else if level == 8 {
        'f'
    } else if level == 9 {
        'L'
    } else if level == 10 {
        'C'
    } else if level == 11 {
        'G'
    } else if level == 12 {
        '0'
    } else if level == 13 {
        '8'
    } else {
        '@'
    }
}

/// Number of cells along an extent of pixels: as many as fit whole, and at
/// least one.
pub open spec fn cells_along(extent: int, cell_size: int) -> int {
    if extent / cell_size >= 1 {
        extent / cell_size
    } else {
        1
    }
}

/// Number of cells along an extent of pixels.
pub fn grid_cells(extent: u32, cell_size: u32) -> (r: u32)
    requires
        cell_size > 0,
    ensures
        r == cells_along(extent as int, cell_size as int),
        r >= 1,
{
    let whole = extent / cell_size;
    if whole >= 1 {
        whole
    } else {
        1
    }
}

/// Where a cell begins along an extent.
pub open spec fn cell_start(cell: int, cell_size: int) -> int {
    cell * cell_size
}

/// Where a cell ends along an extent: a cell's length behind its start, or
/// at the end of the extent if that comes first.
pub open spec fn cell_end(cell: int, cell_size: int, extent: int) -> int {
    if cell * cell_size + cell_size <= extent {
        cell * cell_size + cell_size
    } else {
        extent
    }
}

/// The pixels that a cell covers along an extent, from the first to behind
/// the last.
pub fn cell_span(cell: u32, cell_size: u32, extent: u32) -> (r: (u32, u32))
    requires
        cell_size > 0,
        cell < cells_along(extent as int, cell_size as int),
    ensures
        r.0 == cell_start(cell as int, cell_size as int),
        r.1 == cell_end(cell as int, cell_size as int, extent as int),
        r.0 <= extent || r.0 == 0,
        r.1 <= extent,
{
    proof {
        lemma_cell_fits(cell as int, cell_size as int, extent as int);
    }
    let start = cell * cell_size;
    let end = if extent >= cell_size && start <= extent - cell_size {
        start + cell_size
    } else {
        extent
    };
    (start, end)
}

/// A cell of the grid begins within the extent, and where the extent holds
/// a whole cell, the cell lies within it whole.
pub proof fn lemma_cell_fits(cell: int, cell_size: int, extent: int)
    requires
        cell_size > 0,
        extent >= 0,
        0 <= cell < cells_along(extent, cell_size),
    ensures
        0 <= cell * cell_size <= extent,
        extent >= cell_size ==> cell * cell_size + cell_size <= extent,
        extent < cell_size ==> cell == 0,
{
    if extent / cell_size >= 1 {
        assert(cell * cell_size + cell_size <= extent) by (nonlinear_arith)
            requires
                cell_size > 0,
                0 <= cell,
                cell + 1 <= extent / cell_size,
                extent >= 0,
        ;
        assert(extent >= cell_size) by (nonlinear_arith)
            requires
                cell_size > 0,
                extent / cell_size >= 1,
                extent >= 0,
        ;
        assert(0 <= cell * cell_size) by (nonlinear_arith)
            requires
                cell_size > 0,
                0 <= cell,
        ;
    } else {
        assert(extent < cell_size) by (nonlinear_arith)
            requires
                cell_size > 0,
                extent / cell_size < 1,
                extent >= 0,
        ;
    }
}

/// Channel `c` of the pixel at `(x, y)` in rows of `width` pixels of four
/// bytes each.
pub open spec fn sample(data: Seq<u8>, width: int, x: int, y: int, c: int) -> int {
    data[4 * (y * width + x) + c] as int
}

/// Sum of channel `c` over the pixels of row `y` from `x0` to before `x1`.
pub open spec fn row_sum(data: Seq<u8>, width: int, y: int, x0: int, x1: int, c: int) -> int
    decreases x1 - x0,
{
    if x1 <= x0 {
        0
    } else {
        row_sum(data, width, y, x0, x1 - 1, c) + sample(data, width, x1 - 1, y, c)
    }
}

/// Sum of channel `c` over the pixels of the block from `(x0, y0)` to
/// before `(x1, y1)`.
pub open spec fn block_sum(data: Seq<u8>, width: int, x0: int, x1: int, y0: int, y1: int, c: int) -> int
    decreases y1 - y0,
{
    if y1 <= y0 {
        0
    } else {
        block_sum(data, width, x0, x1, y0, y1 - 1, c) + row_sum(data, width, y1 - 1, x0, x1, c)
    }
}

/// Number of pixels of a block.
pub open spec fn block_count(x0: int, x1: int, y0: int, y1: int) -> int {
    if x1 <= x0 || y1 <= y0 {
        0
    } else {
        (x1 - x0) * (y1 - y0)
    }
}

/// The average of channel `c` over a block, rounded down; zero for a block
/// without pixels.
pub open spec fn block_average(data: Seq<u8>, width: int, x0: int, x1: int, y0: int, y1: int, c: int) -> int {
    if block_count(x0, x1, y0, y1) == 0 {
        0
    } else {
        block_sum(data, width, x0, x1, y0, y1, c) / block_count(x0, x1, y0, y1)
    }
}

/// A row of pixels sums to at most 255 for each pixel.
pub proof fn lemma_row_sum_bound(data: Seq<u8>, width: int, y: int, x0: int, x1: int, c: int)
    requires
        x0 <= x1,
    ensures
        0 <= row_sum(data, width, y, x0, x1, c) <= 255 * (x1 - x0),
    decreases x1 - x0,
{
    if x1 > x0 {
        lemma_row_sum_bound(data, width, y, x0, x1 - 1, c);
    }
}

/// A block of pixels sums to at most 255 for each pixel.
pub proof fn lemma_block_sum_bound(data: Seq<u8>, width: int, x0: int, x1: int, y0: int, y1: int, c: int)
    requires
        x0 <= x1,
        y0 <= y1,
    ensures
        0 <= block_sum(data, width, x0, x1, y0, y1, c) <= 255 * ((x1 - x0) * (y1 - y0)),
    decreases y1 - y0,
{
    if y1 > y0 {
        lemma_block_sum_bound(data, width, x0, x1, y0, y1 - 1, c);
        lemma_row_sum_bound(data, width, y1 - 1, x0, x1, c);
        assert(255 * ((x1 - x0) * (y1 - 1 - y0)) + 255 * (x1 - x0) == 255 * ((x1 - x0) * (y1 - y0))) by (nonlinear_arith);
    } else {
        assert((x1 - x0) * (y1 - y0) == 0) by (nonlinear_arith)
            requires
                y1 - y0 == 0,
        ;
    }
}

/// A block within a raster has no more pixels than the raster.
pub proof fn lemma_block_within(x0: int, x1: int, y0: int, y: int, x: int, width: int, height: int)
    requires
        0 <= x0 <= x <= x1 <= width,
        0 <= y0 <= y < height,
    ensures
        0 <= (x1 - x0) * (y - y0) + (x - x0) <= width * height,
        0 <= (x1 - x0) * (y - y0) <= (x1 - x0) * (y + 1 - y0) <= width * height,
{
    assert(0 <= (x1 - x0) * (y - y0) <= width * (y - y0)) by (nonlinear_arith)
        requires
            0 <= x1 - x0 <= width,
            0 <= y - y0,
    ;
    assert(width * (y - y0) + width <= width * height) by (nonlinear_arith)
        requires
            0 <= width,
            y - y0 + 1 <= height,
    ;
    assert((x1 - x0) * (y + 1 - y0) == (x1 - x0) * (y - y0) + (x1 - x0)) by (nonlinear_arith);
}

/// The average colour of the pixels of a block: red, green and blue, each
/// rounded down.
pub fn average_color(data: &Vec<u8>, width: u32, height: u32, x0: u32, x1: u32, y0: u32, y1: u32) -> (r: [u8; 3])
    requires
        4 * width * height <= data@.len(),
        x0 <= x1 <= width,
        y0 <= y1 <= height,
    ensures
        forall|c: int| 0 <= c < 3 ==> r@[c] == block_average(data@, width as int, x0 as int, x1 as int, y0 as int, y1 as int, c),
{
    let mut total_r: u128 = 0;
    let mut total_g: u128 = 0;
    let mut total_b: u128 = 0;
    let mut count: u64 = 0;
    let ghost d = data@;
    let ghost w = width as int;
    proof {
        assert(width * height <= 0xFFFF_FFFF * 0xFFFF_FFFF) by (nonlinear_arith)
            requires
                0 <= width <= 0xFFFF_FFFF,
                0 <= height <= 0xFFFF_FFFF,
        ;
        assert((x1 - x0) * (y0 - y0) == 0) by (nonlinear_arith);
    }
    let mut y = y0;
    while y < y1
        invariant
            d == data@,
            w == width as int,
            4 * width * height <= data@.len(),
            width * height <= 0xFFFF_FFFF * 0xFFFF_FFFF,
            x0 <= x1 <= width,
            y0 <= y <= y1 <= height,
            total_r == block_sum(d, w, x0 as int, x1 as int, y0 as int, y as int, 0),
            total_g == block_sum(d, w, x0 as int, x1 as int, y0 as int, y as int, 1),
            total_b == block_sum(d, w, x0 as int, x1 as int, y0 as int, y as int, 2),
            count == (x1 - x0) * (y - y0),
        decreases y1 - y,
    {
        let ghost row_r = total_r as int;
        let ghost row_g = total_g as int;
        let ghost row_b = total_b as int;
        let ghost row_count = count as int;
        proof {
            lemma_block_sum_bound(d, w, x0 as int, x1 as int, y0 as int, y as int, 0);
            lemma_block_sum_bound(d, w, x0 as int, x1 as int, y0 as int, y as int, 1);
            lemma_block_sum_bound(d, w, x0 as int, x1 as int, y0 as int, y as int, 2);
            lemma_block_within(x0 as int, x1 as int, y0 as int, y as int, x0 as int, width as int, height as int);
        }
        let mut x = x0;
        while x < x1
            invariant
                d == data@,
                w == width as int,
                4 * width * height <= data@.len(),
                width * height <= 0xFFFF_FFFF * 0xFFFF_FFFF,
                x0 <= x <= x1 <= width,
                y0 <= y < y1 <= height,
                0 <= row_r <= 255 * row_count,
                0 <= row_g <= 255 * row_count,
                0 <= row_b <= 255 * row_count,
                row_count == (x1 - x0) * (y - y0),
                total_r == row_r + row_sum(d, w, y as int, x0 as int, x as int, 0),
                total_g == row_g + row_sum(d, w, y as int, x0 as int, x as int, 1),
                total_b == row_b + row_sum(d, w, y as int, x0 as int, x as int, 2),
                count == row_count + (x - x0),
            decreases x1 - x,
        {
            proof {
                lemma_row_sum_bound(d, w, y as int, x0 as int, x as int, 0);
                lemma_row_sum_bound(d, w, y as int, x0 as int, x as int, 1);
                lemma_row_sum_bound(d, w, y as int, x0 as int, x as int, 2);
                lemma_block_within(x0 as int, x1 as int, y0 as int, y as int, x as int, width as int, height as int);
                assert(4 * (y * width + x) + 3 < 4 * width * height) by (nonlinear_arith)
                    requires
                        0 <= x < width,
                        0 <= y < height,
                ;
                assert(y * width + x < width * height) by (nonlinear_arith)
                    requires
                        0 <= x < width,
                        0 <= y < height,
                ;
                assert(y * width <= width * height) by (nonlinear_arith)
                    requires
                        0 <= width,
                        0 <= y < height,
                ;
                assert(4 * (width * height) == 4 * width * height) by (nonlinear_arith);
                assert(data@.len() == data.len());
                assert(y * width + x < usize::MAX);
            }
            let pixel: usize = 4 * ((y as usize) * (width as usize) + (x as usize));
            total_r += data[pixel] as u128;
            total_g += data[pixel + 1] as u128;
            total_b += data[pixel + 2] as u128;
            count += 1;
            x += 1;
        }
        proof {
            assert((x1 - x0) * (y - y0) + (x1 - x0) == (x1 - x0) * (y + 1 - y0)) by (nonlinear_arith);
        }
        y += 1;
    }
    if count == 0 {
        proof {
            assert(block_count(x0 as int, x1 as int, y0 as int, y1 as int) == 0) by (nonlinear_arith)
                requires
                    (x1 - x0) * (y1 - y0) == 0,
                    x0 <= x1,
                    y0 <= y1,
            ;
        }
        return [0, 0, 0];
    }
    proof {
        lemma_block_sum_bound(d, w, x0 as int, x1 as int, y0 as int, y1 as int, 0);
        lemma_block_sum_bound(d, w, x0 as int, x1 as int, y0 as int, y1 as int, 1);
        lemma_block_sum_bound(d, w, x0 as int, x1 as int, y0 as int, y1 as int, 2);
        let n = (x1 - x0) * (y1 - y0);
        assert(x0 < x1 && y0 < y1) by (nonlinear_arith)
            requires
                (x1 - x0) * (y1 - y0) > 0,
                x0 <= x1,
                y0 <= y1,
        ;
        assert(forall|sum: int| 0 <= sum <= 255 * n && n > 0 ==> 0 <= #[trigger] (sum / n) <= 255) by (nonlinear_arith);
    }
    [(total_r / (count as u128)) as u8, (total_g / (count as u128)) as u8, (total_b / (count as u128)) as u8]
}

/// The character that writes a digit of base sixteen, letters small.
pub open spec fn hex_digit(d: int) -> char {
    if d == 0 {
        '0'
    } else if d == 1 {
        '1'
    } else if d == 2 {
        '2'
    } else if d == 3 {
        '3'
    } else if d == 4 {
        '4'
    } else if d == 5 {
        '5'
    } else if d == 6 {
        '6'
    } else if d == 7 {
        '7'
    } else if d == 8 {
        '8'
    } else if d == 9 {
        '9'
    } else if d == 10 {
        'a'
    } else if d == 11 {
        'b'
    } else if d == 12 {
        'c'
    } else if d == 13 {
        'd'
    } else if d == 14 {
        'e'
    } else {
        'f'
    }
}

fn hex_char(d: u8) -> (c: char)
    requires
        d < 16,
    ensures
        c == hex_digit(d as int),
{
    if d == 0 {
        '0'
    } else if d == 1 {
        '1'
    } else if d == 2 {
        '2'
    } else if d == 3 {
        '3'
    } else if d == 4 {
        '4'
    } else if d == 5 {
        '5'
    } else if d == 6 {
        '6'
    } else if d == 7 {
        '7'
    } else if d == 8 {
        '8'
    } else if d == 9 {
        '9'
    } else if d == 10 {
        'a'
    } else if d == 11 {
        'b'
    } else if d == 12 {
        'c'
    } else if d == 13 {
        'd'
    } else if d == 14 {
        'e'
    } else {
        'f'
    }
}

/// A colour as markup writes it: a hash sign, then red, green and blue in
/// two digits of base sixteen each.
pub open spec fn color_hex(red: int, green: int, blue: int) -> Seq<char> {
    seq![
        '#',
        hex_digit(red / 16),
        hex_digit(red % 16),
        hex_digit(green / 16),
        hex_digit(green % 16),
        hex_digit(blue / 16),
        hex_digit(blue % 16),
    ]
}

/// Writes a colour as markup writes it.
pub fn color_to_hex(color: [u8; 3]) -> (r: String)
    ensures
        r@ == color_hex(color@[0] as int, color@[1] as int, color@[2] as int),
{
    let mut out = String::new();
    out.push('#');
    out.push(hex_char(color[0] / 16));
    out.push(hex_char(color[0] % 16));
    out.push(hex_char(color[1] / 16));
    out.push(hex_char(color[1] % 16));
    out.push(hex_char(color[2] / 16));
    out.push(hex_char(color[2] % 16));
    assert(out@ =~= color_hex(color@[0] as int, color@[1] as int, color@[2] as int));
    out
}

/// A glyph as markup writes it: the four characters that markup reserves
/// are written by their names.
pub open spec fn escaped(glyph: char) -> Seq<char> {
    if glyph == '<' {
        "&lt;"@
    } else if glyph == '>' {
        "&gt;"@
    } else if glyph == '&' {
        "&amp;"@
    } else if glyph == '"' {
        "&quot;"@
    } else {
        seq![glyph]
    }
}

/// The markup of one cell: a blank for the darkest level, and for every
/// other the glyph of the level in a span of the cell's colour.
pub open spec fn cell_markup(level: int, red: int, green: int, blue: int) -> Seq<char> {
    let glyph = glyph_of(level);
    if glyph == ' ' {
        seq![' ']
    } else {
        "<tspan fill=\""@ + color_hex(red, green, blue) + "\">"@ + escaped(glyph) + "</tspan>"@
    }
}

/// Appends the markup of one cell.
pub fn push_cell(out: &mut String, level: usize, color: [u8; 3])
    ensures
        final(out)@ == old(out)@ + cell_markup(level as int, color@[0] as int, color@[1] as int, color@[2] as int),
{
    let glyph = glyph_for_level(level);
    if glyph == ' ' {
        out.push(' ');
        assert(out@ =~= old(out)@ + seq![' ']);
    } else {
        let mut span = String::new();
        span.push_str("<tspan fill=\"");
        span.push_str(color_to_hex(color).as_str());
        span.push_str("\">");
        if glyph == '<' {
            span.push_str("&lt;");
        } else if glyph == '>' {
            span.push_str("&gt;");
        } else if glyph == '&' {
            span.push_str("&amp;");
        } else if glyph == '"' {
            span.push_str("&quot;");
        } else {
            span.push(glyph);
            assert(span@ =~= "<tspan fill=\""@ + color_hex(color@[0] as int, color@[1] as int, color@[2] as int) + "\">"@ + seq![glyph]);
        }
        span.push_str("</tspan>");
        out.push_str(span.as_str());
    }
}

/// One row of a text art as the transcriber hands it over: the height at
/// which the row is written, as markup writes the number, and the
/// brightness level of each cell from left to right.
#[derive(Clone, Debug, PartialEq, Eq)]
pub struct TextArtRow {
    pub y: String,
    pub levels: Vec<usize>,
}

/// The average of channel `c` over the cell in column `column` and row
/// `row` of the grid of a raster.
pub open spec fn cell_channel(data: Seq<u8>, width: int, height: int, column: int, row: int, c: int) -> int {
    block_average(
        data,
        width,
        cell_start(column, CELL_SIZE as int),
        cell_end(column, CELL_SIZE as int, width),
        cell_start(row, CELL_SIZE as int),
        cell_end(row, CELL_SIZE as int, height),
        c,
    )
}

/// The markup of the first `n` cells of a row.
pub open spec fn cells_markup(data: Seq<u8>, width: int, height: int, row: int, levels: Seq<usize>, n: int) -> Seq<char>
    decreases n,
{
    if n <= 0 || n > levels.len() {
        Seq::empty()
    } else {
        cells_markup(data, width, height, row, levels, n - 1) + cell_markup(
            levels[n - 1] as int,
            cell_channel(data, width, height, n - 1, row, 0),
            cell_channel(data, width, height, n - 1, row, 1),
            cell_channel(data, width, height, n - 1, row, 2),
        )
    }
}

/// The markup of a row: a line of text at the height of the row that keeps
/// its blanks, with the cells of the row.
pub open spec fn row_markup(data: Seq<u8>, width: int, height: int, row: int, y: Seq<char>, levels: Seq<usize>) -> Seq<char> {
    "<text x=\"0\" y=\""@ + y + "\" xml:space=\"preserve\">"@ + cells_markup(data, width, height, row, levels, levels.len() as int) + "</text>"@
}

/// The markup of the first `n` rows.
pub open spec fn rows_markup(data: Seq<u8>, width: int, height: int, rows: Seq<TextArtRow>, n: int) -> Seq<char>
    decreases n,
{
    if n <= 0 || n > rows.len() {
        Seq::empty()
    } else {
        rows_markup(data, width, height, rows, n - 1) + row_markup(data, width, height, n - 1, rows[n - 1].y@, rows[n - 1].levels@)
    }
}

/// What stands before the rows of a text art: the declaration, the root
/// element with the size of the drawing, the style of the type, and the
/// black ground.
pub open spec fn document_head(svg_width: Seq<char>, svg_height: Seq<char>) -> Seq<char> {
    "<?xml version=\"1.0\" encoding=\"UTF-8\" standalone=\"no\"?>"@ + "<svg xmlns=\"http://www.w3.org/2000/svg\" width=\""@ + svg_width
        + "\" height=\""@ + svg_height + "\">"@
        + "<style>text{font-family:'Courier New',Courier,monospace;font-size:10px;white-space:pre;}</style>"@
        + "<rect width=\"100%\" height=\"100%\" fill=\"black\" />"@
}

/// The whole text art of a raster.
pub open spec fn text_art(data: Seq<u8>, width: int, height: int, svg_width: Seq<char>, svg_height: Seq<char>, rows: Seq<TextArtRow>) -> Seq<char> {
    document_head(svg_width, svg_height) + rows_markup(data, width, height, rows, rows.len() as int) + "</svg>"@
}

/// The rows fit the grid of the raster: one row for each row of cells, and
/// in each one level for each column.
pub open spec fn rows_fit(width: int, height: int, rows: Seq<TextArtRow>) -> bool {
    &&& rows.len() == cells_along(height, CELL_SIZE as int)
    &&& forall|r: int| 0 <= r < rows.len() ==> (#[trigger] rows[r]).levels@.len() == cells_along(width, CELL_SIZE as int)
}

/// Whether the rows fit the grid of the raster.
pub fn check_rows(width: u32, height: u32, rows: &Vec<TextArtRow>) -> (r: bool)
    ensures
        r == rows_fit(width as int, height as int, rows@),
{
    let columns = grid_cells(width, CELL_SIZE);
    let lines = grid_cells(height, CELL_SIZE);
    if rows.len() != lines as usize {
        return false;
    }
    let mut r: usize = 0;
    while r < rows.len()
        invariant
            r <= rows@.len(),
            columns == cells_along(width as int, CELL_SIZE as int),
            forall|k: int| 0 <= k < r ==> (#[trigger] rows@[k]).levels@.len() == columns,
        decreases rows@.len() - r,
    {
        if rows[r].levels.len() != columns as usize {
            return false;
        }
        r += 1;
    }
    true
}

/// Appends the markup of one row of cells.
fn push_row(out: &mut String, data: &Vec<u8>, width: u32, height: u32, row: u32, line: &TextArtRow)
    requires
        4 * width * height <= data@.len(),
        row < cells_along(height as int, CELL_SIZE as int),
        line.levels@.len() == cells_along(width as int, CELL_SIZE as int),
    ensures
        final(out)@ == old(out)@ + row_markup(data@, width as int, height as int, row as int, line.y@, line.levels@),
{
    let mut text = String::new();
    text.push_str("<text x=\"0\" y=\"");
    text.push_str(line.y.as_str());
    text.push_str("\" xml:space=\"preserve\">");
    let ghost head = text@;
    let (y0, y1) = cell_span(row, CELL_SIZE, height);
    proof {
        lemma_cell_fits(row as int, CELL_SIZE as int, height as int);
    }
    let mut column: u32 = 0;
    assert(head + Seq::<char>::empty() =~= head);
    while (column as usize) < line.levels.len()
        invariant
            column <= line.levels@.len(),
            line.levels@.len() == cells_along(width as int, CELL_SIZE as int),
            4 * width * height <= data@.len(),
            y0 == cell_start(row as int, CELL_SIZE as int),
            y1 == cell_end(row as int, CELL_SIZE as int, height as int),
            y0 <= y1 <= height,
            text@ == head + cells_markup(data@, width as int, height as int, row as int, line.levels@, column as int),
        decreases line.levels@.len() - column,
    {
        proof {
            lemma_cell_fits(column as int, CELL_SIZE as int, width as int);
        }
        let (x0, x1) = cell_span(column, CELL_SIZE, width);
        let color = average_color(data, width, height, x0, x1, y0, y1);
        push_cell(&mut text, line.levels[column as usize], color);
        assert(text@ =~= head + cells_markup(data@, width as int, height as int, row as int, line.levels@, column + 1));
        column += 1;
    }
    text.push_str("</text>");
    out.push_str(text.as_str());
}

/// Writes the text art of a raster of four bytes per pixel. The transcriber
/// has measured the brightness of each cell of eight by eight pixels and
/// hands over its level, with the size of the drawing and the height of
/// each row as markup is to write them; the colour of each cell is averaged
/// here. Nothing is written if the buffer is too short for the raster or
/// the rows do not fit its grid.
pub fn text_art_svg(data: &Vec<u8>, width: u32, height: u32, svg_width: &str, svg_height: &str, rows: &Vec<TextArtRow>) -> (r: Option<String>)
    ensures
        r is Some <==> 4 * width * height <= data@.len() && rows_fit(width as int, height as int, rows@),
        r matches Some(svg) ==> svg@ == text_art(data@, width as int, height as int, svg_width@, svg_height@, rows@),
{
    assert(width * height <= u64::MAX) by (nonlinear_arith)
        requires
            0 <= width <= u32::MAX,
            0 <= height <= u32::MAX,
    ;
    assert(data@.len() == data.len());
    let pixels = (width as u64) * (height as u64);
    if pixels > (usize::MAX / 4) as u64 || data.len() < 4 * (pixels as usize) {
        assert(4 * width * height > data@.len()) by (nonlinear_arith)
            requires
                pixels == width * height,
                pixels > usize::MAX / 4 || data@.len() < 4 * pixels,
                data@.len() <= usize::MAX,
        ;
        return None;
    }
    assert(4 * width * height <= data@.len()) by (nonlinear_arith)
        requires
            pixels == width * height,
            data@.len() >= 4 * pixels,
    ;
    if !check_rows(width, height, rows) {
        return None;
    }
    let mut svg = String::new();
    svg.push_str("<?xml version=\"1.0\" encoding=\"UTF-8\" standalone=\"no\"?>");
    svg.push_str("<svg xmlns=\"http://www.w3.org/2000/svg\" width=\"");
    svg.push_str(svg_width);
    svg.push_str("\" height=\"");
    svg.push_str(svg_height);
    svg.push_str("\">");
    svg.push_str("<style>text{font-family:'Courier New',Courier,monospace;font-size:10px;white-space:pre;}</style>");
    svg.push_str("<rect width=\"100%\" height=\"100%\" fill=\"black\" />");
    let ghost head = svg@;
    assert(head =~= document_head(svg_width@, svg_height@));
    assert(head + Seq::<char>::empty() =~= head);
    let mut row: u32 = 0;
    while (row as usize) < rows.len()
        invariant
            row <= rows@.len(),
            rows_fit(width as int, height as int, rows@),
            4 * width * height <= data@.len(),
            svg@ == head + rows_markup(data@, width as int, height as int, rows@, row as int),
        decreases rows@.len() - row,
    {
        push_row(&mut svg, data, width, height, row, &rows[row as usize]);
        assert(svg@ =~= head + rows_markup(data@, width as int, height as int, rows@, row + 1));
        row += 1;
    }
    svg.push_str("</svg>");
    Some(svg)
}

/// One stroke of a glyph: a rectangle within the box of the glyph, its
/// corner and its size in tenths of the size of the type.
#[derive(Clone, Copy, Debug, PartialEq, Eq, Structural)]
pub struct Stroke {
    pub x: u8,
    pub y: u8,
    pub width: u8,
    pub height: u8,
}

/// A stroke with this corner and size.
pub open spec fn stroke(x: u8, y: u8, width: u8, height: u8) -> Stroke {
    Stroke { x, y, width, height }
}

/// The strokes that draw a glyph of the ramp; a dash for any other
/// character, and nothing for a blank.
pub open spec fn strokes_of(glyph: char) -> Seq<Stroke> {
    if glyph == ' ' {
        Seq::empty()
    } else if glyph == '.' {
        seq![stroke(4, 8, 2, 2)]
    } else if glyph == ',' {
        seq![stroke(4, 8, 2, 4)]
    } else if glyph == ':' {
        seq![stroke(4, 2, 2, 2), stroke(4, 8, 2, 2)]
    } else if glyph == ';' {
        seq![stroke(4, 2, 2, 2), stroke(4, 8, 2, 4)]
    } else if glyph == 'i' {
        seq![stroke(4, 1, 2, 1), stroke(4, 4, 2, 6)]
    } else if glyph == '1' {
        seq![stroke(4, 0, 2, 10)]
    } else if glyph == 't' {
        seq![stroke(4, 0, 2, 10), stroke(2, 3, 6, 2)]
    } else if glyph == 'f' {
        seq![stroke(4, 0, 2, 10), stroke(4, 0, 4, 2), stroke(2, 4, 6, 2)]
    } else if glyph == 'L' {
        seq![stroke(2, 0, 2, 10), stroke(2, 8, 6, 2)]
    } else if glyph == 'C' {
        seq![stroke(2, 0, 2, 10), stroke(2, 0, 6, 2), stroke(2, 8, 6, 2)]
    } else if glyph == 'G' {
        seq![stroke(2, 0, 2, 10), stroke(2, 0, 6, 2), stroke(2, 8, 6, 2), stroke(6, 6, 2, 4)]
    } else if glyph == '0' {
        seq![stroke(2, 0, 2, 10), stroke(6, 0, 2, 10), stroke(2, 0, 6, 2), stroke(2, 8, 6, 2)]
    } else if glyph == '8' {
        seq![stroke(2, 0, 2, 10), stroke(6, 0, 2, 10), stroke(2, 0, 6, 2), stroke(2, 4, 6, 2), stroke(2, 8, 6, 2)]
    } else if glyph == '@' {
        seq![stroke(1, 1, 8, 8), stroke(3, 3, 4, 4)]
    } else {
        seq![stroke(2, 4, 6, 2)]
    }
}

fn strokes(list: &mut Vec<Stroke>, x: u8, y: u8, width: u8, height: u8)
    ensures
        final(list)@ == old(list)@.push(stroke(x, y, width, height)),
{
    list.push(Stroke { x, y, width, height });
}

/// The strokes that draw a glyph.
pub fn glyph_strokes(glyph: char) -> (r: Vec<Stroke>)
    ensures
        r@ == strokes_of(glyph),
{
    let mut list: Vec<Stroke> = Vec::new();
    if glyph == ' ' {
    } else if glyph == '.' {
        strokes(&mut list, 4, 8, 2, 2);
    } else if glyph == ',' {
        strokes(&mut list, 4, 8, 2, 4);
    } else if glyph == ':' {
        strokes(&mut list, 4, 2, 2, 2);
        strokes(&mut list, 4, 8, 2, 2);
    } else if glyph == ';' {
        strokes(&mut list, 4, 2, 2, 2);
        strokes(&mut list, 4, 8, 2, 4);
    } else if glyph == 'i' {
        strokes(&mut list, 4, 1, 2, 1);
        strokes(&mut list, 4, 4, 2, 6);
    } else if glyph == '1' {
        strokes(&mut list, 4, 0, 2, 10);
    } else if glyph == 't' {
        strokes(&mut list, 4, 0, 2, 10);
        strokes(&mut list, 2, 3, 6, 2);
    } else if glyph == 'f' {
        strokes(&mut list, 4, 0, 2, 10);
        strokes(&mut list, 4, 0, 4, 2);
        strokes(&mut list, 2, 4, 6, 2);
    } else if glyph == 'L' {
        strokes(&mut list, 2, 0, 2, 10);
        strokes(&mut list, 2, 8, 6, 2);
    } else if glyph == 'C' {
        strokes(&mut list, 2, 0, 2, 10);
        strokes(&mut list, 2, 0, 6, 2);
        strokes(&mut list, 2, 8, 6, 2);
    } else if glyph == 'G' {
        strokes(&mut list, 2, 0, 2, 10);
        strokes(&mut list, 2, 0, 6, 2);
        strokes(&mut list, 2, 8, 6, 2);
        strokes(&mut list, 6, 6, 2, 4);
    } else if glyph == '0' {
        strokes(&mut list, 2, 0, 2, 10);
        strokes(&mut list, 6, 0, 2, 10);
        strokes(&mut list, 2, 0, 6, 2);
        strokes(&mut list, 2, 8, 6, 2);
    } else if glyph == '8' {
        strokes(&mut list, 2, 0, 2, 10);
        strokes(&mut list, 6, 0, 2, 10);
        strokes(&mut list, 2, 0, 6, 2);
        strokes(&mut list, 2, 4, 6, 2);
        strokes(&mut list, 2, 8, 6, 2);
    } else if glyph == '@' {
        strokes(&mut list, 1, 1, 8, 8);
        strokes(&mut list, 3, 3, 4, 4);
    } else {
        strokes(&mut list, 2, 4, 6, 2);
    }
    assert(list@ =~= strokes_of(glyph));
    list
}

} // verus!
