//! The frame renderer: from lines and trail field to the cells to paint.

use crate::field::{glyph_at, is_grid, TrailField};
use crate::line::{line_views, Line, LineView};
use vstd::prelude::*;

verus! {

/// The colours of the palette.
#[derive(Clone, Copy, Debug, PartialEq, Eq)]
pub enum Tone {
    Grey,
    White,
    Green,
}

/// One cell to paint: `glyph` in colour `tone` at column `col` and row `row`.
#[derive(Clone, Copy, Debug, PartialEq, Eq)]
pub struct CellWrite {
    pub col: u32,
    pub row: u32,
    pub glyph: char,
    pub tone: Tone,
}

impl CellWrite {
    /// The write of `glyph` in `tone` at column `col` and row `row`.
    pub fn new(col: u32, row: u32, glyph: char, tone: Tone) -> (write: CellWrite)
        ensures
            write == (CellWrite { col, row, glyph, tone }),
    {
        CellWrite { col, row, glyph, tone }
    }
}

/// The write of `glyph` at (`col`, `row`) if the grid `cells` has such a cell,
/// and nothing otherwise.
pub open spec fn clipped(cells: Seq<Seq<char>>, col: int, row: int, glyph: char, tone: Tone) -> Seq<
    CellWrite,
> {
    if glyph_at(cells, col, row) is Some {
        seq![CellWrite { col: col as u32, row: row as u32, glyph, tone }]
    } else {
        Seq::empty()
    }
}

/// The writes for the first `n` characters of the head of `line`: character
/// `i` goes to column `x + i` of row `y`.
pub open spec fn head_cells(line: LineView, cells: Seq<Seq<char>>, tone: Tone, n: nat) -> Seq<
    CellWrite,
>
    decreases n,
{
    if n == 0 {
        Seq::empty()
    } else {
        head_cells(line, cells, tone, (n - 1) as nat) + clipped(
            cells,
            line.x + n - 1,
            line.y as int,
            line.text[n - 1],
            tone,
        )
    }
}

/// The write for cell `j` of the trail above column `i` of `line`: it lies
/// `j + 1` rows above the head and shows the glyph that the field holds there.
pub open spec fn trail_cell(line: LineView, cells: Seq<Seq<char>>, tone: Tone, i: int, j: int) -> Seq<
    CellWrite,
> {
    clipped(cells, line.x + i, line.y - j - 1, cells[line.x + i][line.y - j - 1], tone)
}

/// The writes for the first `n` cells of the trail above column `i`, nearest
/// the head first.
pub open spec fn column_cells(
    line: LineView,
    cells: Seq<Seq<char>>,
    tone: Tone,
    i: int,
    n: nat,
) -> Seq<CellWrite>
    decreases n,
{
    if n == 0 {
        Seq::empty()
    } else {
        column_cells(line, cells, tone, i, (n - 1) as nat) + trail_cell(line, cells, tone, i, n - 1)
    }
}

/// The writes for the trails above the first `n` columns of `line`, each as
/// long as `trails` says.
pub open spec fn trail_cells(line: LineView, cells: Seq<Seq<char>>, tone: Tone, n: nat) -> Seq<
    CellWrite,
>
    decreases n,
{
    if n == 0 {
        Seq::empty()
    } else {
        trail_cells(line, cells, tone, (n - 1) as nat) + column_cells(
            line,
            cells,
            tone,
            n - 1,
            line.trails[n - 1] as nat,
        )
    }
}

/// All writes for `line`: its head in `head`, then its trails in `trail`.
pub open spec fn line_cells(line: LineView, cells: Seq<Seq<char>>, head: Tone, trail: Tone) -> Seq<
    CellWrite,
> {
    head_cells(line, cells, head, line.text.len()) + trail_cells(
        line,
        cells,
        trail,
        line.trails.len(),
    )
}

/// The writes for the first `n` of `lines`, in registry order, so that a later
/// line paints over an earlier one.
pub open spec fn frame_cells(
    lines: Seq<LineView>,
    cells: Seq<Seq<char>>,
    head: Tone,
    trail: Tone,
    n: nat,
) -> Seq<CellWrite>
    decreases n,
{
    if n == 0 {
        Seq::empty()
    } else {
        frame_cells(lines, cells, head, trail, (n - 1) as nat) + line_cells(
            lines[n - 1],
            cells,
            head,
            trail,
        )
    }
}

/// Whether every write of `writes` lands inside a terminal of `width` columns
/// and `height` rows.
pub open spec fn all_within(writes: Seq<CellWrite>, width: int, height: int) -> bool {
    forall|k: int| 0 <= k < writes.len() ==> (#[trigger] writes[k]).col < width && writes[k].row < height
}

/// The column `x + i`, when it is one that a terminal can have.
fn column_of(x: u32, i: usize) -> (col: Option<u32>)
    ensures
        col is Some <==> x + i <= u32::MAX,
        col matches Some(c) ==> c == x + i,
{
    if i <= (u32::MAX - x) as usize {
        Some(x + i as u32)
    } else {
        None
    }
}

/// Computes the cells to paint for `lines` over the trail field `field`: for
/// each line in turn its head text in `line_color`, then above each of its
/// columns the glyphs of the field in `trail_color`, as many rows as the
/// column's trail is long. A cell outside the field is left out, so every
/// write lands on the terminal.
pub fn draw(lines: &Vec<Line>, field: &TrailField, line_color: Tone, trail_color: Tone) -> (writes:
    Vec<CellWrite>)
    ensures
        writes@ == frame_cells(
            line_views(lines@),
            field@,
            line_color,
            trail_color,
            lines@.len(),
        ),
        all_within(writes@, field@.len() as int, field@[0].len() as int),
{
    let width = field.width();
    let height = field.height();
    let ghost cells = field@;
    let ghost views = line_views(lines@);
    let mut writes: Vec<CellWrite> = Vec::new();
    let mut k: usize = 0;
    while k < lines.len()
        invariant
            k <= lines.len(),
            cells == field@,
            is_grid(cells),
            width == cells.len(),
            height == cells[0].len(),
            views == line_views(lines@),
            writes@ == frame_cells(views, cells, line_color, trail_color, k as nat),
            all_within(writes@, cells.len() as int, cells[0].len() as int),
        decreases lines.len() - k,
    {
        let line = &lines[k];
        let ghost view = line@;
        let ghost before = writes@;
        assert(views[k as int] == view);
        // the head
        let text = line.text.as_str();
        let len = text.unicode_len();
        let mut i: usize = 0;
        while i < len
            invariant
                i <= len,
                len == view.text.len(),
                text@ == view.text,
                view == line@,
                cells == field@,
                is_grid(cells),
                width == cells.len(),
                height == cells[0].len(),
                writes@ == before + head_cells(view, cells, line_color, i as nat),
                all_within(writes@, cells.len() as int, cells[0].len() as int),
            decreases len - i,
        {
            let glyph = text.get_char(i);
            let ghost drawn = writes@;
            match column_of(line.x, i) {
                Some(col) => {
                    if col < width && line.y < height {
                        writes.push(CellWrite::new(col, line.y, glyph, line_color));
                    }
                },
                None => {},
            }
            assert(writes@ =~= drawn + clipped(
                cells,
                view.x + i,
                view.y as int,
                glyph,
                line_color,
            ));
            assert(writes@ =~= before + head_cells(view, cells, line_color, (i + 1) as nat));
            i += 1;
        }
        // the trails
        let ghost headed = writes@;
        let mut i: usize = 0;
        while i < line.trails.len()
            invariant
                i <= line.trails.len(),
                view == line@,
                cells == field@,
                is_grid(cells),
                headed == before + head_cells(view, cells, line_color, view.text.len()),
                writes@ == headed + trail_cells(view, cells, trail_color, i as nat),
                all_within(writes@, cells.len() as int, cells[0].len() as int),
            decreases line.trails.len() - i,
        {
            let trail = line.trails[i];
            let ghost trailed = writes@;
            let mut j: u32 = 0;
            while j < trail
                invariant
                    j <= trail,
                    i < line.trails.len(),
                    trail == view.trails[i as int],
                    view == line@,
                    cells == field@,
                    is_grid(cells),
                    writes@ == trailed + column_cells(view, cells, trail_color, i as int, j as nat),
                    all_within(writes@, cells.len() as int, cells[0].len() as int),
                decreases trail - j,
            {
                let ghost drawn = writes@;
                if j < line.y {
                    let row = line.y - j - 1;
                    match column_of(line.x, i) {
                        Some(col) => {
                            match field.get(col, row) {
                                Some(glyph) => {
                                    writes.push(CellWrite::new(col, row, glyph, trail_color));
                                },
                                None => {},
                            }
                        },
                        None => {},
                    }
                }
                assert(writes@ =~= drawn + trail_cell(view, cells, trail_color, i as int, j as int));
                assert(writes@ =~= trailed + column_cells(
                    view,
                    cells,
                    trail_color,
                    i as int,
                    (j + 1) as nat,
                ));
                j += 1;
            }
            assert(writes@ =~= headed + trail_cells(view, cells, trail_color, (i + 1) as nat));
            i += 1;
        }
        assert(writes@ =~= before + line_cells(view, cells, line_color, trail_color));
        k += 1;
    }
    writes
}

/// Computes the cells to paint for a whole frame: first the ambient rain
/// `background`, all in grey, then the text lines `foreground` with white
/// heads and green trails, so that text always paints over the rain.
pub fn compose(background: &Vec<Line>, foreground: &Vec<Line>, field: &TrailField) -> (writes:
    Vec<CellWrite>)
    ensures
        writes@ == frame_cells(
            line_views(background@),
            field@,
            Tone::Grey,
            Tone::Grey,
            background@.len(),
        ) + frame_cells(
            line_views(foreground@),
            field@,
            Tone::White,
            Tone::Green,
            foreground@.len(),
        ),
        all_within(writes@, field@.len() as int, field@[0].len() as int),
{
    let mut writes = draw(background, field, Tone::Grey, Tone::Grey);
    let mut over = draw(foreground, field, Tone::White, Tone::Green);
    writes.append(&mut over);
    writes
}

} // verus!
