//! Falling lines and the registry that advances, culls and spawns them.

use crate::glyph::{glyph_text, GlyphSource};
use crate::random::uniform_u32;
use rand::rngs::ThreadRng;
use vstd::prelude::*;

verus! {

/// One piece of text falling down the screen. `trails` holds, for each column
/// of the text, how many rows of trail are drawn above it; `x` is the column
/// of the first character and `y` the row of the text, the head of the line.
#[derive(Clone, Debug, PartialEq, Eq)]
pub struct Line {
    pub text: String,
    pub trails: Vec<u32>,
    pub x: u32,
    pub y: u32,
}

/// What a [`Line`] holds, as plain mathematical values.
pub ghost struct LineView {
    pub text: Seq<char>,
    pub trails: Seq<u32>,
    pub x: nat,
    pub y: nat,
}

impl View for Line {
    type V = LineView;

    open spec fn view(&self) -> LineView {
        LineView { text: self.text@, trails: self.trails@, x: self.x as nat, y: self.y as nat }
    }
}

/// The views of the lines of a registry, in order.
pub open spec fn line_views(lines: Seq<Line>) -> Seq<LineView> {
    Seq::new(lines.len(), |i: int| lines[i]@)
}

/// `line` one frame later: its head one row further down, nothing else
/// changed.
pub open spec fn moved_down(line: LineView) -> LineView {
    LineView { y: line.y + 1, ..line }
}

/// Whether `line` has left a screen of `height` rows for good: every one of
/// its trails has scrolled past the bottom edge. A line without columns has
/// nothing left to show and counts as gone.
pub open spec fn scrolled_out(line: LineView, height: int) -> bool {
    forall|i: int| 0 <= i < line.trails.len() ==> line.y - #[trigger] line.trails[i] > height
}

/// The registry `lines` one frame later on a screen of `height` rows: every
/// line moved down by one row, and of those the ones still in sight, in their
/// old order.
pub open spec fn survivors(lines: Seq<LineView>, height: int) -> Seq<LineView> {
    lines.map_values(|line: LineView| moved_down(line)).filter(
        |line: LineView| !scrolled_out(line, height),
    )
}

/// Whether every line of `lines` can still move down one row within `u32`.
pub open spec fn can_advance(lines: Seq<LineView>) -> bool {
    forall|i: int| 0 <= i < lines.len() ==> (#[trigger] lines[i]).y < u32::MAX
}

/// Whether every line of `lines` is still in sight one frame later on a screen
/// of `height` rows.
pub open spec fn all_in_sight(lines: Seq<LineView>, height: int) -> bool {
    forall|i: int| 0 <= i < lines.len() ==> !scrolled_out(moved_down(#[trigger] lines[i]), height)
}

/// The text length `len` held between 1 and `width - 1`, as the placement of
/// a new line counts it: an empty text takes the room of one character, and a
/// text as wide as the screen or wider is counted one short of the width.
pub open spec fn held_length(len: int, width: int) -> int {
    if len < 1 {
        1
    } else if len > width - 1 {
        width - 1
    } else {
        len
    }
}

/// The rightmost column at which a new line of `len` characters may start on
/// a screen of `width` columns.
pub open spec fn widest_origin(len: int, width: int) -> int {
    width - held_length(len, width)
}

/// Whether `line` is a line as [`add_line`] makes it from `text` on a screen
/// of `width` columns with trails shorter than `trail_length`: it shows
/// `text`, starts in row 0 at a column up to [`widest_origin`], and has for
/// each character one trail of at least one row.
pub open spec fn spawned(line: LineView, text: Seq<char>, width: int, trail_length: int) -> bool {
    &&& line.text == text
    &&& line.y == 0
    &&& line.x <= widest_origin(text.len() as int, width)
    &&& line.trails.len() == text.len()
    &&& forall|i: int| 0 <= i < line.trails.len() ==> 1 <= #[trigger] line.trails[i] < trail_length
}

/// Whether `line` is a line of the ambient rain as [`update_background`]
/// spawns it: a single glyph of `glyphs`, placed as [`add_line`] places it.
pub open spec fn is_raindrop(
    line: LineView,
    glyphs: GlyphSource,
    width: int,
    trail_length: int,
) -> bool {
    &&& line.text.len() == 1
    &&& glyphs.yields(line.text[0])
    &&& spawned(line, line.text, width, trail_length)
}

/// Tells whether `line` has left a screen of `height` rows for good.
pub fn has_scrolled_out(line: &Line, height: u32) -> (gone: bool)
    ensures
        gone == scrolled_out(line@, height as int),
{
    let mut i: usize = 0;
    while i < line.trails.len()
        invariant
            i <= line.trails.len(),
            forall|k: int| 0 <= k < i ==> line@.y - #[trigger] line@.trails[k] > height,
        decreases line.trails.len() - i,
    {
        if line.y as u64 <= height as u64 + line.trails[i] as u64 {
            assert(!(line@.y - line@.trails[i as int] > height));
            return false;
        }
        i += 1;
    }
    true
}

/// Advances the registry by one frame: moves every line down by one row, then
/// drops each line whose trails have all scrolled past the bottom of a screen
/// of `height` rows. The lines that stay keep their order. Nothing else ever
/// removes a line. A line without text has no trail to wait for and leaves
/// with the first frame after it was spawned.
///
/// No head may stand in row `u32::MAX`, from where it cannot move on.
pub fn update_lines(height: u32, lines: Vec<Line>) -> (kept: Vec<Line>)
    requires
        can_advance(line_views(lines@)),
    ensures
        line_views(kept@) == survivors(line_views(lines@), height as int),
{
    let ghost before = line_views(lines@);
    let mut kept: Vec<Line> = Vec::new();
    proof {
        lemma_survivors_empty(height as int);
        assert(before.take(0) =~= Seq::<LineView>::empty());
    }
    for line in it: lines
        invariant
            before == line_views(lines@),
            can_advance(before),
            line_views(kept@) == survivors(before.take(it.index() as int), height as int),
    {
        let ghost i = it.index() as int;
        let ghost old_kept = line_views(kept@);
        let mut line = line;
        assert(before[i] == line@);
        line.y = line.y + 1;
        proof {
            lemma_survivors_push(before.take(i), before[i], height as int);
            assert(before.take(i + 1) =~= before.take(i).push(before[i]));
        }
        if !has_scrolled_out(&line, height) {
            kept.push(line);
            assert(line_views(kept@) =~= old_kept.push(moved_down(before[i])));
        }
    }
    assert(before.take(before.len() as int) =~= before);
    kept
}

/// Computes the rightmost column at which a new line of `len` characters may
/// start on a screen of `width` columns.
pub fn origin_limit(len: usize, width: u32) -> (limit: u32)
    requires
        width >= 1,
    ensures
        limit == widest_origin(len as int, width as int),
        limit <= width,
        len < width ==> limit + len <= width,
{
    let most = width - 1;
    let held = if len < 1 {
        1
    } else if len > most as usize {
        most
    } else {
        len as u32
    };
    width - held
}

/// Appends to `lines` the line that shows `text` from column `x` of row 0,
/// with the trail lengths `trails`.
pub fn place_line(lines: Vec<Line>, text: String, trails: Vec<u32>, x: u32) -> (grown: Vec<Line>)
    ensures
        grown@ == lines@.push(Line { text, trails, x, y: 0 }),
        line_views(grown@) == line_views(lines@).push(
            LineView { text: text@, trails: trails@, x: x as nat, y: 0 },
        ),
{
    let mut lines = lines;
    let ghost before = line_views(lines@);
    lines.push(Line { text, trails, x, y: 0 });
    assert(line_views(lines@) =~= before.push(
        LineView { text: text@, trails: trails@, x: x as nat, y: 0 },
    ));
    lines
}

/// Spawns a line for `text` at the end of the registry. Each character gets a
/// trail of a length drawn from `1..trail_length`, and the line starts in row
/// 0 at a column drawn from `0..=widest_origin`, so that a text shorter than
/// the screen is wide fits on it whole. The lines already there are not
/// touched.
///
/// The screen must have a column, and the range of trail lengths a member
/// unless the text is empty.
pub fn add_line(
    lines: Vec<Line>,
    text: String,
    width: u32,
    trail_length: u32,
    rng: &mut ThreadRng,
) -> (grown: Vec<Line>)
    requires
        width >= 1,
        text@.len() > 0 ==> trail_length >= 2,
    ensures
        grown@.len() == lines@.len() + 1,
        line_views(grown@).drop_last() == line_views(lines@),
        spawned(line_views(grown@).last(), text@, width as int, trail_length as int),
        text@.len() < width ==> line_views(grown@).last().x + text@.len() <= width,
{
    let len = text.as_str().unicode_len();
    let mut trails: Vec<u32> = Vec::new();
    let mut i: usize = 0;
    while i < len
        invariant
            i <= len,
            len > 0 ==> trail_length >= 2,
            trails@.len() == i,
            forall|k: int| 0 <= k < i ==> 1 <= #[trigger] trails@[k] < trail_length,
        decreases len - i,
    {
        let trail = uniform_u32(rng, 1, trail_length - 1);
        trails.push(trail);
        i += 1;
    }
    let x = uniform_u32(rng, 0, origin_limit(len, width));
    let ghost before = line_views(lines@);
    let grown = place_line(lines, text, trails, x);
    assert(line_views(grown@).drop_last() =~= before);
    grown
}

/// One frame of the ambient rain: advances the registry as [`update_lines`]
/// does, then spawns exactly one line that shows a single glyph drawn from
/// `glyphs`. The registry therefore grows by one line in every frame in which
/// no line leaves the screen.
pub fn update_background(
    height: u32,
    lines: Vec<Line>,
    width: u32,
    trail_length: u32,
    glyphs: &GlyphSource,
    rng: &mut ThreadRng,
) -> (rained: Vec<Line>)
    requires
        can_advance(line_views(lines@)),
        width >= 1,
        trail_length >= 2,
    ensures
        line_views(rained@).drop_last() == survivors(line_views(lines@), height as int),
        is_raindrop(line_views(rained@).last(), *glyphs, width as int, trail_length as int),
        rained@.len() == survivors(line_views(lines@), height as int).len() + 1,
        rained@.len() <= lines@.len() + 1,
        all_in_sight(line_views(lines@), height as int) ==> rained@.len() == lines@.len() + 1,
{
    let ghost before = line_views(lines@);
    let kept = update_lines(height, lines);
    let glyph = glyphs.sample(rng);
    let text = glyph_text(glyph);
    proof {
        lemma_survivors_count(before, height as int);
    }
    add_line(kept, text, width, trail_length, rng)
}

/// No line survives in an empty registry.
proof fn lemma_survivors_empty(height: int)
    ensures
        survivors(Seq::<LineView>::empty(), height) == Seq::<LineView>::empty(),
{
    reveal(Seq::filter);
    assert(Seq::<LineView>::empty().map_values(|line: LineView| moved_down(line)) =~= Seq::<
        LineView,
    >::empty());
}

/// The survivors of a registry with one more line at its end: that line comes
/// last if it is still in sight, and the others are not affected.
proof fn lemma_survivors_push(lines: Seq<LineView>, line: LineView, height: int)
    ensures
        survivors(lines.push(line), height) == if scrolled_out(moved_down(line), height) {
            survivors(lines, height)
        } else {
            survivors(lines, height).push(moved_down(line))
        },
{
    let step = |line: LineView| moved_down(line);
    let stays = |line: LineView| !scrolled_out(line, height);
    lines.map_values(step).lemma_filter_push(moved_down(line), stays);
    assert(lines.push(line).map_values(step) =~= lines.map_values(step).push(moved_down(line)));
}

/// A frame never adds to what it found: at most as many lines survive as there
/// were, and all of them do while every line is still in sight.
pub proof fn lemma_survivors_count(lines: Seq<LineView>, height: int)
    ensures
        survivors(lines, height).len() <= lines.len(),
        all_in_sight(lines, height) ==> survivors(lines, height) == lines.map_values(
            |line: LineView| moved_down(line),
        ),
    decreases lines.len(),
{
    if lines.len() == 0 {
        lemma_survivors_empty(height);
        assert(lines =~= Seq::<LineView>::empty());
        assert(lines.map_values(|line: LineView| moved_down(line)) =~= Seq::<LineView>::empty());
    } else {
        let front = lines.drop_last();
        lemma_survivors_count(front, height);
        lemma_survivors_push(front, lines.last(), height);
        assert(front.push(lines.last()) =~= lines);
        if all_in_sight(lines, height) {
            assert(all_in_sight(front, height)) by {
                assert forall|i: int| 0 <= i < front.len() implies !scrolled_out(
                    moved_down(#[trigger] front[i]),
                    height,
                ) by {
                    assert(front[i] == lines[i]);
                }
            }
            assert(lines.map_values(|line: LineView| moved_down(line)) =~= front.map_values(
                |line: LineView| moved_down(line),
            ).push(moved_down(lines.last())));
        }
    }
}

/// Law of [`update_lines`]: each line of the registry after a frame is a line
/// of the registry before it whose head has moved down by exactly one row,
/// with text, trails and column as they were.
pub proof fn lemma_advance_moves_head_only(lines: Seq<LineView>, height: int, k: int)
    requires
        0 <= k < survivors(lines, height).len(),
    ensures
        exists|i: int|
            0 <= i < lines.len() && {
                &&& survivors(lines, height)[k].y == (#[trigger] lines[i]).y + 1
                &&& survivors(lines, height)[k].x == lines[i].x
                &&& survivors(lines, height)[k].text == lines[i].text
                &&& survivors(lines, height)[k].trails == lines[i].trails
            },
{
    let moved = lines.map_values(|line: LineView| moved_down(line));
    let stays = |line: LineView| !scrolled_out(line, height);
    let survivor = survivors(lines, height)[k];
    assert(moved.filter(stays).contains(survivor));
    moved.lemma_filter_contains_rev(stays, survivor);
    let i = choose|i: int| 0 <= i < moved.len() && moved[i] == survivor;
    assert(survivor == moved_down(lines[i]));
}

/// Law of [`update_lines`]: a line is in the registry after a frame exactly
/// when, at its new row, at least one of its trails has not yet scrolled past
/// the bottom edge: `y - trails[c] <= height` for some column `c`.
pub proof fn lemma_line_stays_iff_in_sight(lines: Seq<LineView>, height: int, i: int)
    requires
        0 <= i < lines.len(),
    ensures
        survivors(lines, height).contains(moved_down(lines[i])) <==> exists|c: int|
            0 <= c < lines[i].trails.len() && lines[i].y + 1 - #[trigger] lines[i].trails[c]
                <= height,
{
    let moved = lines.map_values(|line: LineView| moved_down(line));
    let stays = |line: LineView| !scrolled_out(line, height);
    let line = moved_down(lines[i]);
    assert(moved[i] == line);
    if exists|c: int|
        0 <= c < lines[i].trails.len() && lines[i].y + 1 - #[trigger] lines[i].trails[c] <= height {
        let c = choose|c: int|
            0 <= c < lines[i].trails.len() && lines[i].y + 1 - #[trigger] lines[i].trails[c]
                <= height;
        assert(!(line.y - line.trails[c] > height));
        assert(stays(moved[i]));
        moved.lemma_filter_contains(stays, i);
    }
    if survivors(lines, height).contains(line) {
        let k = choose|k: int| 0 <= k < moved.filter(stays).len() && moved.filter(stays)[k] == line;
        moved.lemma_filter_pred(stays, k);
        assert(!scrolled_out(line, height));
        let c = choose|c: int| 0 <= c < line.trails.len() && !(line.y - #[trigger] line.trails[c] > height);
        assert(0 <= c < lines[i].trails.len() && lines[i].y + 1 - lines[i].trails[c] <= height);
    }
}

} // verus!
