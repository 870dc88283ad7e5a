//! The confirmation dialog: a modal box centered in a drawing region,
//! bordered and filled red, with three centered lines of text chosen to fit
//! the box's width.
//!
//! The dialog paints into `tui`'s character buffer. The buffer is modelled
//! by two names: [`cells_of`], the mapping from a cell's coordinates to the
//! character and style written there, and [`area_of`], the rectangle of
//! coordinates the buffer accepts. Every write goes through [`put_cell`];
//! everything above it is verified against that model.

use vstd::prelude::*;
use vstd::string::*;
use tui::buffer::Buffer;
use tui::layout::Rect;
use tui::style::{Color, Modifier};
use crate::files::{FileOrFolder, spec_name};
use crate::textfmt::{question_line, name_line, spec_question_line, spec_name_line};

verus! {

#[verifier::external_type_specification]
pub struct ExRect(Rect);

#[verifier::external_type_specification]
#[verifier::external_body]
pub struct ExBuffer(Buffer);

/// What stands in each cell of the buffer: the character shown there and a
/// code for the style it was written with.
pub uninterp spec fn cells_of(buf: Buffer) -> Map<(int, int), (char, int)>;

/// The rectangle of coordinates the buffer accepts, as (x, y, width,
/// height): writes outside it are refused by the buffer itself.
pub uninterp spec fn area_of(buf: Buffer) -> (int, int, int, int);

/// The three styles the dialog paints with.
pub enum CellStyle {
    /// Red background for the border glyphs.
    Border,
    /// Red on red: the solid fill of the box's interior.
    Fill,
    /// Bold white on red for the text lines.
    Text,
}

/// The code under which a style appears in [`cells_of`].
pub open spec fn style_code(s: CellStyle) -> int {
    match s {
        CellStyle::Border => 0,
        CellStyle::Fill => 1,
        CellStyle::Text => 2,
    }
}

/// Relies on tui's Buffer::get_mut and Cell: writes the one character and a
/// fully determined style (foreground, background, emphasis) into the cell
/// at (x, y), which must lie inside the buffer's area.
#[verifier::external_body]
fn put_cell(buf: &mut Buffer, x: u16, y: u16, c: char, style: CellStyle)
    requires
        area_of(*old(buf)).0 <= x < area_of(*old(buf)).0 + area_of(*old(buf)).2,
        area_of(*old(buf)).1 <= y < area_of(*old(buf)).1 + area_of(*old(buf)).3,
    ensures
        area_of(*final(buf)) == area_of(*old(buf)),
        cells_of(*final(buf))
            == cells_of(*old(buf)).insert((x as int, y as int), (c, style_code(style))),
{
    let cell = buf.get_mut(x, y);
    cell.set_char(c);
    let (fg, modifier) = match style {
        CellStyle::Border => (Color::Reset, Modifier::empty()),
        CellStyle::Fill => (Color::Red, Modifier::empty()),
        CellStyle::Text => (Color::White, Modifier::BOLD),
    };
    cell.fg = fg;
    cell.bg = Color::Red;
    cell.modifier = modifier;
}

/// The dialog box's width for a region `aw` columns wide.
pub open spec fn spec_box_w(aw: int) -> int {
    if aw > 150 {
        150
    } else {
        aw / 2
    }
}

/// The dialog box's left column in a region at `ax` of width `aw`.
pub open spec fn spec_box_x(ax: int, aw: int) -> int {
    (ax + aw) / 2 - spec_box_w(aw) / 2
}

/// The dialog box's top row in a region at `ay` of height `ah`; the box is
/// always 10 rows high.
pub open spec fn spec_box_y(ay: int, ah: int) -> int {
    (ay + ah) / 2 - 5
}

/// True of the coordinates the box's border occupies: its top and bottom
/// rows, corners included, and its left and right columns between them.
pub open spec fn on_border(bx: int, by: int, bw: int, bh: int, p: (int, int)) -> bool {
    ((p.1 == by || p.1 == by + bh) && bx <= p.0 <= bx + bw)
    || ((p.0 == bx || p.0 == bx + bw) && by < p.1 < by + bh)
}

/// The box-drawing glyph the border shows at `p`: a corner at the four
/// corners, a horizontal stroke on the top and bottom rows, a vertical
/// stroke on the sides.
pub open spec fn border_glyph(bx: int, by: int, bw: int, bh: int, p: (int, int)) -> char {
    if p == (bx, by) {
        '┌'
    } else if p == (bx + bw, by) {
        '┐'
    } else if p == (bx, by + bh) {
        '└'
    } else if p == (bx + bw, by + bh) {
        '┘'
    } else if p.1 == by || p.1 == by + bh {
        '─'
    } else {
        '│'
    }
}

/// Everything the border pass writes.
pub open spec fn border_map(bx: int, by: int, bw: int, bh: int) -> Map<(int, int), (char, int)> {
    Map::new(
        |p: (int, int)| on_border(bx, by, bw, bh, p),
        |p: (int, int)| (border_glyph(bx, by, bw, bh, p), style_code(CellStyle::Border)),
    )
}

/// True of the coordinates strictly inside the border.
pub open spec fn interior(bx: int, by: int, bw: int, bh: int, p: (int, int)) -> bool {
    bx < p.0 < bx + bw && by < p.1 < by + bh
}

/// Everything the fill pass writes: a blank glyph, red on red, in every
/// interior cell.
pub open spec fn fill_map(bx: int, by: int, bw: int, bh: int) -> Map<(int, int), (char, int)> {
    Map::new(
        |p: (int, int)| interior(bx, by, bw, bh, p),
        |p: (int, int)| (' ', style_code(CellStyle::Fill)),
    )
}

/// Everything one text line writes: the characters of `s`, left to right
/// from column `x` on row `y`, in the text style.
pub open spec fn line_map(x: int, y: int, s: Seq<char>) -> Map<(int, int), (char, int)> {
    Map::new(
        |p: (int, int)| p.1 == y && x <= p.0 < x + s.len(),
        |p: (int, int)| (s[p.0 - x], style_code(CellStyle::Text)),
    )
}

/// The column a line of `len` characters starts at to sit centered in a box
/// of width `bw` at column `bx`: `ceil((bw - len) / 2) + bx`.
pub open spec fn spec_line_start(bx: int, bw: int, len: int) -> int {
    (bw - len + 1) / 2 + bx
}

/// The top and bottom border rows, written up to (not including) column
/// `upto`.
spec fn border_cols_map(bx: int, by: int, bw: int, bh: int, upto: int) -> Map<
    (int, int),
    (char, int),
> {
    Map::new(
        |p: (int, int)| (p.1 == by || p.1 == by + bh) && bx <= p.0 < upto,
        |p: (int, int)| (border_glyph(bx, by, bw, bh, p), style_code(CellStyle::Border)),
    )
}

/// The whole top and bottom rows, and the two side columns written up to
/// (not including) row `ylim`.
spec fn border_sides_map(bx: int, by: int, bw: int, bh: int, ylim: int) -> Map<
    (int, int),
    (char, int),
> {
    Map::new(
        |p: (int, int)| ((p.1 == by || p.1 == by + bh) && bx <= p.0 <= bx + bw)
            || ((p.0 == bx || p.0 == bx + bw) && by < p.1 < ylim),
        |p: (int, int)| (border_glyph(bx, by, bw, bh, p), style_code(CellStyle::Border)),
    )
}

/// The interior columns left of `xc` filled whole, and column `xc` filled
/// up to (not including) row `ylim`.
spec fn fill_part_map(bx: int, by: int, bw: int, bh: int, xc: int, ylim: int) -> Map<
    (int, int),
    (char, int),
> {
    Map::new(
        |p: (int, int)| (bx < p.0 < xc && by < p.1 < by + bh)
            || (p.0 == xc && by < p.1 < ylim),
        |p: (int, int)| (' ', style_code(CellStyle::Fill)),
    )
}

proof fn lemma_upr_insert(
    base: Map<(int, int), (char, int)>,
    m: Map<(int, int), (char, int)>,
    k: (int, int),
    v: (char, int),
)
    ensures
        base.union_prefer_right(m).insert(k, v) == base.union_prefer_right(m.insert(k, v)),
{
    assert(base.union_prefer_right(m).insert(k, v) =~= base.union_prefer_right(m.insert(k, v)));
}

/// The border pass: one loop over the box's columns for the top and bottom
/// rows, one over the rows between them for the two sides.
fn draw_border(buf: &mut Buffer, bx: u16, by: u16, bw: u16, bh: u16)
    requires
        1 <= bw,
        1 <= bh,
        bx + bw < 65535,
        by + bh < 65535,
        area_of(*old(buf)).0 <= bx,
        bx + bw < area_of(*old(buf)).0 + area_of(*old(buf)).2,
        area_of(*old(buf)).1 <= by,
        by + bh < area_of(*old(buf)).1 + area_of(*old(buf)).3,
    ensures
        area_of(*final(buf)) == area_of(*old(buf)),
        cells_of(*final(buf)) == cells_of(*old(buf)).union_prefer_right(
            border_map(bx as int, by as int, bw as int, bh as int),
        ),
{
    let ghost base = cells_of(*buf);
    proof {
        assert(cells_of(*buf) =~= base.union_prefer_right(
            border_cols_map(bx as int, by as int, bw as int, bh as int, bx as int),
        ));
    }
    let mut x: u16 = bx;
    while x <= bx + bw
        invariant
            bx <= x <= bx + bw + 1,
            1 <= bw,
            1 <= bh,
            bx + bw < 65535,
            by + bh < 65535,
            area_of(*buf) == area_of(*old(buf)),
            area_of(*buf).0 <= bx,
            bx + bw < area_of(*buf).0 + area_of(*buf).2,
            area_of(*buf).1 <= by,
            by + bh < area_of(*buf).1 + area_of(*buf).3,
            cells_of(*buf) == base.union_prefer_right(
                border_cols_map(bx as int, by as int, bw as int, bh as int, x as int),
            ),
        decreases bx + bw + 1 - x,
    {
        let ghost pre = border_cols_map(bx as int, by as int, bw as int, bh as int, x as int);
        if x == bx {
            put_cell(buf, x, by, '┌', CellStyle::Border);
            put_cell(buf, x, by + bh, '└', CellStyle::Border);
        } else if x == bx + bw {
            put_cell(buf, x, by, '┐', CellStyle::Border);
            put_cell(buf, x, by + bh, '┘', CellStyle::Border);
        } else {
            put_cell(buf, x, by, '─', CellStyle::Border);
            put_cell(buf, x, by + bh, '─', CellStyle::Border);
        }
        proof {
            let g = border_glyph(bx as int, by as int, bw as int, bh as int, (x as int, by as int));
            let g2 = border_glyph(
                bx as int, by as int, bw as int, bh as int, (x as int, by + bh as int),
            );
            lemma_upr_insert(base, pre, (x as int, by as int), (g, 0));
            lemma_upr_insert(
                base,
                pre.insert((x as int, by as int), (g, 0)),
                (x as int, by + bh as int),
                (g2, 0),
            );
            assert(pre.insert((x as int, by as int), (g, 0)).insert(
                (x as int, by + bh as int), (g2, 0),
            ) =~= border_cols_map(bx as int, by as int, bw as int, bh as int, x + 1 as int));
        }
        x += 1;
    }
    proof {
        assert(border_cols_map(bx as int, by as int, bw as int, bh as int, bx + bw + 1 as int)
            =~= border_sides_map(bx as int, by as int, bw as int, bh as int, by + 1 as int));
    }
    let mut y: u16 = by + 1;
    while y < by + bh
        invariant
            by + 1 <= y <= by + bh,
            1 <= bw,
            1 <= bh,
            bx + bw < 65535,
            by + bh < 65535,
            area_of(*buf) == area_of(*old(buf)),
            area_of(*buf).0 <= bx,
            bx + bw < area_of(*buf).0 + area_of(*buf).2,
            area_of(*buf).1 <= by,
            by + bh < area_of(*buf).1 + area_of(*buf).3,
            cells_of(*buf) == base.union_prefer_right(
                border_sides_map(bx as int, by as int, bw as int, bh as int, y as int),
            ),
        decreases by + bh - y,
    {
        let ghost pre = border_sides_map(bx as int, by as int, bw as int, bh as int, y as int);
        put_cell(buf, bx, y, '│', CellStyle::Border);
        put_cell(buf, bx + bw, y, '│', CellStyle::Border);
        proof {
            lemma_upr_insert(base, pre, (bx as int, y as int), ('│', 0));
            lemma_upr_insert(
                base,
                pre.insert((bx as int, y as int), ('│', 0)),
                (bx + bw as int, y as int),
                ('│', 0),
            );
            assert(pre.insert((bx as int, y as int), ('│', 0)).insert(
                (bx + bw as int, y as int), ('│', 0),
            ) =~= border_sides_map(bx as int, by as int, bw as int, bh as int, y + 1 as int));
        }
        y += 1;
    }
    proof {
        assert(border_sides_map(bx as int, by as int, bw as int, bh as int, by + bh as int)
            =~= border_map(bx as int, by as int, bw as int, bh as int));
    }
}

/// The fill pass: clears every interior cell to a blank red-on-red glyph.
fn fill_interior(buf: &mut Buffer, bx: u16, by: u16, bw: u16, bh: u16)
    requires
        1 <= bw,
        1 <= bh,
        bx + bw < 65535,
        by + bh < 65535,
        area_of(*old(buf)).0 <= bx,
        bx + bw < area_of(*old(buf)).0 + area_of(*old(buf)).2,
        area_of(*old(buf)).1 <= by,
        by + bh < area_of(*old(buf)).1 + area_of(*old(buf)).3,
    ensures
        area_of(*final(buf)) == area_of(*old(buf)),
        cells_of(*final(buf)) == cells_of(*old(buf)).union_prefer_right(
            fill_map(bx as int, by as int, bw as int, bh as int),
        ),
{
    let ghost base = cells_of(*buf);
    proof {
        assert(cells_of(*buf) =~= base.union_prefer_right(
            fill_part_map(bx as int, by as int, bw as int, bh as int, bx + 1, by + 1),
        ));
    }
    let mut x: u16 = bx + 1;
    while x < bx + bw
        invariant
            bx + 1 <= x <= bx + bw,
            1 <= bw,
            1 <= bh,
            bx + bw < 65535,
            by + bh < 65535,
            area_of(*buf) == area_of(*old(buf)),
            area_of(*buf).0 <= bx,
            bx + bw < area_of(*buf).0 + area_of(*buf).2,
            area_of(*buf).1 <= by,
            by + bh < area_of(*buf).1 + area_of(*buf).3,
            cells_of(*buf) == base.union_prefer_right(
                fill_part_map(bx as int, by as int, bw as int, bh as int, x as int, by + 1),
            ),
        decreases bx + bw - x,
    {
        let mut y: u16 = by + 1;
        while y < by + bh
            invariant
                by + 1 <= y <= by + bh,
                bx + 1 <= x < bx + bw,
                1 <= bw,
                1 <= bh,
                bx + bw < 65535,
                by + bh < 65535,
                area_of(*buf) == area_of(*old(buf)),
                area_of(*buf).0 <= bx,
                bx + bw < area_of(*buf).0 + area_of(*buf).2,
                area_of(*buf).1 <= by,
                by + bh < area_of(*buf).1 + area_of(*buf).3,
                cells_of(*buf) == base.union_prefer_right(
                    fill_part_map(bx as int, by as int, bw as int, bh as int, x as int, y as int),
                ),
            decreases by + bh - y,
        {
            let ghost pre = fill_part_map(
                bx as int, by as int, bw as int, bh as int, x as int, y as int,
            );
            put_cell(buf, x, y, ' ', CellStyle::Fill);
            proof {
                lemma_upr_insert(base, pre, (x as int, y as int), (' ', 1));
                assert(pre.insert((x as int, y as int), (' ', 1))
                    =~= fill_part_map(
                        bx as int, by as int, bw as int, bh as int, x as int, y + 1 as int,
                    ));
            }
            y += 1;
        }
        proof {
            assert(fill_part_map(bx as int, by as int, bw as int, bh as int, x as int, by + bh as int)
                =~= fill_part_map(
                    bx as int, by as int, bw as int, bh as int, x + 1 as int, by + 1 as int,
                ));
        }
        x += 1;
    }
    proof {
        assert(fill_part_map(bx as int, by as int, bw as int, bh as int, bx + bw as int, by + 1 as int)
            =~= fill_map(bx as int, by as int, bw as int, bh as int));
    }
}

/// One text line: the characters of `s`, left to right from (x, y).
fn draw_line(buf: &mut Buffer, x: u16, y: u16, s: &str)
    requires
        x + s@.len() <= 65535,
        area_of(*old(buf)).0 <= x,
        x + s@.len() < area_of(*old(buf)).0 + area_of(*old(buf)).2,
        area_of(*old(buf)).1 <= y,
        y < area_of(*old(buf)).1 + area_of(*old(buf)).3,
    ensures
        area_of(*final(buf)) == area_of(*old(buf)),
        cells_of(*final(buf)) == cells_of(*old(buf)).union_prefer_right(
            line_map(x as int, y as int, s@),
        ),
{
    let ghost base = cells_of(*buf);
    let len = s.unicode_len();
    proof {
        assert(cells_of(*buf) =~= base.union_prefer_right(line_map(x as int, y as int, s@.take(0))));
    }
    let mut i: usize = 0;
    while i < len
        invariant
            i <= len,
            len == s@.len(),
            x + len <= 65535,
            area_of(*buf) == area_of(*old(buf)),
            area_of(*buf).0 <= x,
            x + len < area_of(*buf).0 + area_of(*buf).2,
            area_of(*buf).1 <= y,
            y < area_of(*buf).1 + area_of(*buf).3,
            cells_of(*buf) == base.union_prefer_right(
                line_map(x as int, y as int, s@.take(i as int)),
            ),
        decreases len - i,
    {
        let ghost pre = line_map(x as int, y as int, s@.take(i as int));
        let c = s.get_char(i);
        put_cell(buf, x + (i as u16), y, c, CellStyle::Text);
        proof {
            lemma_upr_insert(base, pre, (x + i as int, y as int), (c, 2));
            assert(pre.insert((x + i as int, y as int), (c, 2))
                =~= line_map(x as int, y as int, s@.take(i + 1 as int)));
        }
        i += 1;
    }
    proof {
        assert(s@.take(len as int) =~= s@);
    }
}

/// Everything one draw call paints, layered in paint order over the cells
/// that were there: the border, the interior fill, then the question, name
/// and confirmation lines on the rows 2, 5 and 8 below the box's top, each
/// starting at its centered column.
pub open spec fn dialog_overlay(
    base: Map<(int, int), (char, int)>,
    area: Rect,
    e: &FileOrFolder,
    path: Seq<char>,
) -> Map<(int, int), (char, int)> {
    let bw = spec_box_w(area.width as int);
    let bx = spec_box_x(area.x as int, area.width as int);
    let by = spec_box_y(area.y as int, area.height as int);
    let usable = bw - 4;
    let q = spec_question_line(e, usable);
    let n = spec_name_line(path, spec_name(e), usable);
    let yn = "(y/n)"@;
    base.union_prefer_right(border_map(bx, by, bw, 10))
        .union_prefer_right(fill_map(bx, by, bw, 10))
        .union_prefer_right(line_map(spec_line_start(bx, bw, q.len() as int), by + 2, q))
        .union_prefer_right(line_map(spec_line_start(bx, bw, n.len() as int), by + 5, n))
        .union_prefer_right(line_map(spec_line_start(bx, bw, yn.len() as int), by + 8, yn))
}

/// The dialog box's rectangle for a drawing region, as (x, y, width,
/// height): width 150 when the region is wider than 150 columns, half the
/// region's width when it is wider than 50, always 10 rows high, centered
/// on the midpoint of (origin + extent) on each axis.
pub fn dialog_rect(area: Rect) -> (r: (u16, u16, u16, u16))
    requires
        area.width > 50,
        area.height >= 11,
        area.x + area.width <= 65535,
        area.y + area.height <= 65535,
    ensures
        r.0 == spec_box_x(area.x as int, area.width as int),
        r.1 == spec_box_y(area.y as int, area.height as int),
        r.2 == spec_box_w(area.width as int),
        r.3 == 10,
{
    let width: u16 = if area.width > 150 {
        150
    } else {
        area.width / 2
    };
    let height: u16 = 10;
    proof {
        assert(width / 2 <= (area.x + area.width) / 2);
        assert(5 <= (area.y + area.height) / 2);
    }
    let x: u16 = (area.x + area.width) / 2 - width / 2;
    let y: u16 = (area.y + area.height) / 2 - height / 2;
    (x, y, width, height)
}

/// The centered start column for a line of `len` characters in a box of
/// width `bw` starting at column `bx`.
fn line_start(bx: u16, bw: u16, len: u16) -> (r: u16)
    requires
        len <= bw,
        bw <= 150,
        bx + bw <= 65535,
    ensures
        r == spec_line_start(bx as int, bw as int, len as int),
{
    proof {
        lemma_line_centered(bx as int, bw as int, len as int);
    }
    (bw - len + 1) / 2 + bx
}

/// A line placed by [`spec_line_start`] sits inside the box: it starts no
/// earlier than the box's left column, and ends within the box's width.
/// `(bw - len + 1) / 2` is exactly `ceil((bw - len) / 2)`.
pub proof fn lemma_line_centered(bx: int, bw: int, len: int)
    requires
        0 <= len <= bw,
    ensures
        bx <= spec_line_start(bx, bw, len),
        spec_line_start(bx, bw, len) + len <= bx + bw,
{
    let k = bw - len;
    assert(2 * ((k + 1) / 2) + ((k + 1) % 2) == k + 1);
    if k == 0 {
        assert((k + 1) / 2 == 0);
    } else {
        assert((k + 1) / 2 <= k);
    }
}

/// The dialog box of a region at the origin lies fully inside that region,
/// for every width over 50 and every height of at least 11: the box's
/// right and bottom edges stay strictly within the region's extent.
pub proof fn lemma_box_in_region(aw: int, ah: int)
    requires
        50 < aw <= 65535,
        11 <= ah <= 65535,
    ensures
        0 <= spec_box_x(0, aw),
        spec_box_x(0, aw) + spec_box_w(aw) < aw,
        0 <= spec_box_y(0, ah),
        spec_box_y(0, ah) + 10 < ah,
{
    assert(2 * (aw / 2) + (aw % 2) == aw);
    assert(2 * (ah / 2) + (ah % 2) == ah);
    assert(2 * ((aw / 2) / 2) + ((aw / 2) % 2) == aw / 2);
}

/// One draw call never writes outside its drawing region: every cell of
/// the overlay that was not already in `base` has coordinates within
/// `area`. Together with [`lemma_box_in_region`], a region at the origin
/// that is wider than 50 and at least 11 rows tall meets this lemma's
/// geometric premises.
pub proof fn lemma_dialog_within_region(
    base: Map<(int, int), (char, int)>,
    area: Rect,
    e: &FileOrFolder,
    path: Seq<char>,
)
    requires
        area.width > 50,
        area.x <= spec_box_x(area.x as int, area.width as int),
        spec_box_x(area.x as int, area.width as int) + spec_box_w(area.width as int)
            < area.x + area.width,
        area.y <= spec_box_y(area.y as int, area.height as int),
        spec_box_y(area.y as int, area.height as int) + 10 < area.y + area.height,
    ensures
        forall|p: (int, int)|
            dialog_overlay(base, area, e, path).dom().contains(p) && !base.dom().contains(p)
                ==> area.x <= p.0 < area.x + area.width && area.y <= p.1 < area.y
                + area.height,
{
    let bw = spec_box_w(area.width as int);
    let bx = spec_box_x(area.x as int, area.width as int);
    let by = spec_box_y(area.y as int, area.height as int);
    let usable = bw - 4;
    assert(2 * (area.width as int / 2) + (area.width as int % 2) == area.width);
    assert(25 <= bw);
    reveal_strlit("Delete this file?");
    reveal_strlit("Delete?");
    reveal_strlit("Delete folder?");
    reveal_strlit("(y/n)");
    let q = spec_question_line(e, usable);
    let n = spec_name_line(path, spec_name(e), usable);
    let yn = "(y/n)"@;
    assert(q.len() <= bw);
    crate::textfmt::lemma_name_line_fits(path, spec_name(e), usable);
    lemma_line_centered(bx, bw, q.len() as int);
    lemma_line_centered(bx, bw, n.len() as int);
    lemma_line_centered(bx, bw, yn.len() as int);
}

/// The modal deletion-confirmation dialog: borrows the entry pending
/// deletion and the current directory path for the duration of one draw
/// call.
pub struct MessageBox<'a> {
    pub current_path: &'a String,
    pub file_to_delete: &'a FileOrFolder,
}

impl<'a> MessageBox<'a> {
    pub fn new(file_to_delete: &'a FileOrFolder, current_path: &'a String) -> (r: Self)
        ensures
            r.file_to_delete == file_to_delete,
            r.current_path == current_path,
    {
        Self { current_path, file_to_delete }
    }

    /// Paints the whole dialog into `buf`: the centered box's border and
    /// solid fill, then the three centered text lines. The caller must hand
    /// a region wide and tall enough to host the box — the surrounding
    /// application suppresses the dialog below that size — and a region
    /// that lies within the buffer's own area.
    pub fn draw(&self, area: Rect, buf: &mut Buffer)
        requires
            area.width > 50,
            area.x + area.width <= 65535,
            area.y + area.height <= 65535,
            area.x <= spec_box_x(area.x as int, area.width as int),
            spec_box_x(area.x as int, area.width as int) + spec_box_w(area.width as int)
                < area.x + area.width,
            area.y <= spec_box_y(area.y as int, area.height as int),
            spec_box_y(area.y as int, area.height as int) + 10 < area.y + area.height,
            area_of(*old(buf)).0 <= area.x,
            area.x + area.width <= area_of(*old(buf)).0 + area_of(*old(buf)).2,
            area_of(*old(buf)).1 <= area.y,
            area.y + area.height <= area_of(*old(buf)).1 + area_of(*old(buf)).3,
        ensures
            area_of(*final(buf)) == area_of(*old(buf)),
            cells_of(*final(buf)) == dialog_overlay(
                cells_of(*old(buf)),
                area,
                self.file_to_delete,
                self.current_path@,
            ),
    {
        proof {
            assert(11 <= area.height) by {
                assert((area.y + area.height) / 2 - 5 >= area.y);
                assert((area.y + area.height) / 2 + 5 < area.y + area.height);
            }
        }
        let (x, y, width, height) = dialog_rect(area);
        proof {
            assert(25 <= spec_box_w(area.width as int)) by {
                assert(51 <= area.width);
                assert(2 * (area.width as int / 2) + (area.width as int % 2) == area.width);
            }
        }

        draw_border(buf, x, y, width, height);
        fill_interior(buf, x, y, width, height);

        let usable: u16 = width - 4;
        let q = question_line(self.file_to_delete, usable);
        let entry_name = self.file_to_delete.name();
        let n = name_line(self.current_path, entry_name, usable);
        let yn = "(y/n)";
        proof {
            reveal_strlit("Delete this file?");
            reveal_strlit("Delete?");
            reveal_strlit("Delete folder?");
            reveal_strlit("(y/n)");
            assert(q@.len() <= usable);
            crate::textfmt::lemma_name_line_fits(
                self.current_path@, spec_name(self.file_to_delete), usable as int,
            );
            assert(yn@.len() == 5);
        }
        let q_len = q.as_str().unicode_len();
        let n_len = n.as_str().unicode_len();
        let q_start = line_start(x, width, q_len as u16);
        let n_start = line_start(x, width, n_len as u16);
        let yn_start = line_start(x, width, 5);
        proof {
            lemma_line_centered(x as int, width as int, q_len as int);
            lemma_line_centered(x as int, width as int, n_len as int);
            lemma_line_centered(x as int, width as int, 5);
        }
        draw_line(buf, q_start, y + height / 2 - 3, q.as_str());
        draw_line(buf, n_start, y + height / 2, n.as_str());
        draw_line(buf, yn_start, y + height / 2 + 3, yn);
    }
}

} // verus!
