//! The trail field: the grid of ambient glyphs that trails are drawn from.

use crate::chance::Chance;
use crate::glyph::GlyphSource;
use rand::rngs::ThreadRng;
use vstd::prelude::*;

verus! {

/// Whether `cells`, read as columns of glyphs, is a grid: at least one column,
/// at least one row, every column of the same height, and both sizes within
/// `u32`.
pub open spec fn is_grid(cells: Seq<Seq<char>>) -> bool {
    &&& 0 < cells.len() <= u32::MAX
    &&& 0 < cells[0].len() <= u32::MAX
    &&& forall|col: int| 0 <= col < cells.len() ==> (#[trigger] cells[col]).len() == cells[0].len()
}

/// The glyph that `cells` holds at column `col` and row `row`, if that cell
/// exists.
pub open spec fn glyph_at(cells: Seq<Seq<char>>, col: int, row: int) -> Option<char> {
    if 0 <= col < cells.len() && 0 <= row < cells[col].len() {
        Some(cells[col][row])
    } else {
        None
    }
}

/// Whether `after` has the shape of `before`: as many columns, each as high.
pub open spec fn same_shape(before: Seq<Seq<char>>, after: Seq<Seq<char>>) -> bool {
    &&& after.len() == before.len()
    &&& forall|col: int| 0 <= col < before.len() ==> (#[trigger] after[col]).len() == before[col].len()
}

/// Whether every glyph of `cells` is one that `glyphs` can produce.
pub open spec fn all_from(cells: Seq<Seq<char>>, glyphs: GlyphSource) -> bool {
    forall|col: int, row: int|
        0 <= col < cells.len() && 0 <= row < cells[col].len() ==> glyphs.yields(
            #[trigger] cells[col][row],
        )
}

/// Whether each cell of `after` either still holds the glyph that `before`
/// holds there or holds one that `glyphs` can produce.
pub open spec fn kept_or_fresh(
    before: Seq<Seq<char>>,
    after: Seq<Seq<char>>,
    glyphs: GlyphSource,
) -> bool {
    forall|col: int, row: int|
        0 <= col < after.len() && 0 <= row < after[col].len() ==> (#[trigger] after[col][row])
            == before[col][row] || glyphs.yields(after[col][row])
}

/// The views of `columns`, in order.
pub open spec fn column_views(columns: Seq<Vec<char>>) -> Seq<Seq<char>> {
    Seq::new(columns.len(), |col: int| columns[col]@)
}

/// A grid of glyphs, one per terminal cell. Its view is the sequence of its
/// columns, left to right, each a sequence of glyphs from the top row down;
/// the view is always a grid in the sense of [`is_grid`].
pub struct TrailField {
    columns: Vec<Vec<char>>,
    rows: u32,
}

impl View for TrailField {
    type V = Seq<Seq<char>>;

    closed spec fn view(&self) -> Seq<Seq<char>> {
        Seq::new(self.columns@.len(), |col: int| self.columns@[col]@)
    }
}

impl TrailField {
    #[verifier::type_invariant]
    spec fn rectangular(self) -> bool {
        &&& 0 < self.columns@.len() <= u32::MAX
        &&& 0 < self.rows
        &&& forall|col: int|
            0 <= col < self.columns@.len() ==> (#[trigger] self.columns@[col])@.len() == self.rows
    }

    /// A field of `width` columns and `height` rows in which every cell holds a
    /// glyph drawn from `glyphs`, or `None` when either size is zero.
    pub fn new(width: u32, height: u32, glyphs: &GlyphSource, rng: &mut ThreadRng) -> (field:
        Option<TrailField>)
        ensures
            field is Some <==> width > 0 && height > 0,
            field matches Some(f) ==> {
                &&& is_grid(f@)
                &&& f@.len() == width
                &&& f@[0].len() == height
                &&& all_from(f@, *glyphs)
            },
    {
        if width == 0 || height == 0 {
            return None;
        }
        let mut columns: Vec<Vec<char>> = Vec::new();
        let mut col: u32 = 0;
        while col < width
            invariant
                col <= width,
                columns@.len() == col,
                forall|c: int| 0 <= c < col ==> (#[trigger] columns@[c])@.len() == height,
                forall|c: int, r: int|
                    0 <= c < col && 0 <= r < height ==> glyphs.yields(#[trigger] columns@[c]@[r]),
            decreases width - col,
        {
            let mut column: Vec<char> = Vec::new();
            let mut row: u32 = 0;
            while row < height
                invariant
                    row <= height,
                    column@.len() == row,
                    forall|r: int| 0 <= r < row ==> glyphs.yields(#[trigger] column@[r]),
                decreases height - row,
            {
                column.push(glyphs.sample(rng));
                row += 1;
            }
            columns.push(column);
            col += 1;
        }
        Some(TrailField { columns, rows: height })
    }

    /// The field that holds `columns`, left to right, each listed from the top
    /// row down; `None` unless they form a grid.
    pub fn from_columns(columns: Vec<Vec<char>>) -> (field: Option<TrailField>)
        ensures
            field is Some <==> is_grid(column_views(columns@)),
            field matches Some(f) ==> f@ == column_views(columns@),
    {
        let ghost cells = column_views(columns@);
        if columns.len() == 0 || columns.len() > u32::MAX as usize {
            return None;
        }
        let rows = columns[0].len();
        if rows == 0 || rows > u32::MAX as usize {
            return None;
        }
        let mut col: usize = 1;
        while col < columns.len()
            invariant
                1 <= col <= columns.len(),
                cells == column_views(columns@),
                rows == columns@[0]@.len(),
                forall|c: int| 0 <= c < col ==> (#[trigger] columns@[c])@.len() == rows,
            decreases columns.len() - col,
        {
            if columns[col].len() != rows {
                assert(cells[col as int].len() != cells[0].len());
                return None;
            }
            col += 1;
        }
        assert forall|c: int| 0 <= c < cells.len() implies (#[trigger] cells[c]).len()
            == cells[0].len() by {
            assert(columns@[c]@.len() == rows);
        }
        Some(TrailField { columns, rows: rows as u32 })
    }

    /// The field with `glyph` in the cell at column `col` and row `row`, and
    /// the field unchanged when the grid has no such cell.
    pub fn put(self, col: u32, row: u32, glyph: char) -> (changed: TrailField)
        ensures
            glyph_at(self@, col as int, row as int) is Some ==> changed@ == self@.update(
                col as int,
                self@[col as int].update(row as int, glyph),
            ),
            glyph_at(self@, col as int, row as int) is None ==> changed@ == self@,
    {
        proof {
            use_type_invariant(&self);
        }
        let ghost before = self@;
        let TrailField { columns, rows } = self;
        let mut columns = columns;
        if (col as usize) < columns.len() && row < rows {
            columns[col as usize][row as usize] = glyph;
            let changed = TrailField { columns, rows };
            assert(changed@ =~= before.update(
                col as int,
                before[col as int].update(row as int, glyph),
            ));
            changed
        } else {
            let same = TrailField { columns, rows };
            assert(same@ =~= before);
            same
        }
    }

    /// The number of columns.
    pub fn width(&self) -> (width: u32)
        ensures
            width == self@.len(),
            is_grid(self@),
    {
        proof {
            use_type_invariant(self);
        }
        self.columns.len() as u32
    }

    /// The number of rows.
    pub fn height(&self) -> (height: u32)
        ensures
            height == self@[0].len(),
            is_grid(self@),
    {
        proof {
            use_type_invariant(self);
        }
        self.rows
    }

    /// The glyph at column `col` and row `row`, or `None` outside the grid.
    pub fn get(&self, col: u32, row: u32) -> (glyph: Option<char>)
        ensures
            glyph == glyph_at(self@, col as int, row as int),
    {
        proof {
            use_type_invariant(self);
        }
        if (col as usize) < self.columns.len() && row < self.rows {
            Some(self.columns[col as usize][row as usize])
        } else {
            None
        }
    }
}

/// Lets the field flicker for one frame: each cell, independently and with
/// probability `chance`, takes a new glyph drawn from `glyphs`, and keeps the
/// one it has otherwise. With a chance of zero the field stays as it is; with
/// a chance of one every cell is drawn anew.
pub fn update_trails(
    field: TrailField,
    chance: &Chance,
    rng: &mut ThreadRng,
    glyphs: &GlyphSource,
) -> (decayed: TrailField)
    ensures
        same_shape(field@, decayed@),
        kept_or_fresh(field@, decayed@, *glyphs),
        chance.is_never() ==> decayed@ == field@,
        chance.is_always() ==> all_from(decayed@, *glyphs),
{
    let ghost before = field@;
    let width = field.width();
    let height = field.height();
    let mut field = field;
    let mut col: u32 = 0;
    while col < width
        invariant
            col <= width,
            is_grid(before),
            width == before.len(),
            height == before[0].len(),
            same_shape(before, field@),
            kept_or_fresh(before, field@, *glyphs),
            chance.is_never() ==> field@ == before,
            chance.is_always() ==> forall|c: int, r: int|
                0 <= c < col && 0 <= r < height ==> glyphs.yields(#[trigger] field@[c][r]),
        decreases width - col,
    {
        let mut row: u32 = 0;
        while row < height
            invariant
                col < width,
                row <= height,
                is_grid(before),
                width == before.len(),
                height == before[0].len(),
                same_shape(before, field@),
                kept_or_fresh(before, field@, *glyphs),
                chance.is_never() ==> field@ == before,
                chance.is_always() ==> forall|c: int, r: int|
                    (0 <= c < col && 0 <= r < height) || (c == col && 0 <= r < row)
                        ==> glyphs.yields(#[trigger] field@[c][r]),
            decreases height - row,
        {
            if chance.draw(rng) {
                let glyph = glyphs.sample(rng);
                field = field.put(col, row, glyph);
            }
            row += 1;
        }
        col += 1;
    }
    field
}

} // verus!
