//! The mathematical model of the screen: a grid is a sequence of rows, the
//! top row first, each row a sequence of characters. The functions here say
//! what writing into a grid and serialising it mean; the buffer's contracts
//! are stated over them.

use vstd::arithmetic::div_mod::{
    lemma_div_pos_is_pos, lemma_fundamental_div_mod, lemma_fundamental_div_mod_converse_div,
    lemma_fundamental_div_mod_converse_mod, lemma_mod_pos_bound, lemma_multiply_divide_lt,
};
use vstd::prelude::*;

verus! {

/// A grid is rectangular when it has `height` rows of `width` cells each.
pub open spec fn is_rect(grid: Seq<Seq<char>>, width: nat, height: nat) -> bool {
    &&& grid.len() == height
    &&& forall|r: int| 0 <= r < grid.len() ==> (#[trigger] grid[r]).len() == width
}

/// The grid of the given size whose every cell holds `bg`.
pub open spec fn blank(width: nat, height: nat, bg: char) -> Seq<Seq<char>> {
    Seq::new(height, |r: int| Seq::new(width, |c: int| bg))
}

/// The index, counted from the top, of the row that a caller addresses as
/// row `y` counted from the bottom.
pub open spec fn storage_row(height: int, y: int) -> int {
    height - 1 - y
}

/// The index, counted from the top, of the first row of a block of `count`
/// rows whose last row is the one that a caller addresses as row `y`
/// counted from the bottom.
pub open spec fn block_top(height: int, y: int, count: int) -> int {
    height - y - count
}

/// A row after `text` is written into it from column `x` on. Characters that
/// would land beyond the row's end are dropped; the row keeps its length.
pub open spec fn overlay_row(row: Seq<char>, x: int, text: Seq<char>) -> Seq<char> {
    Seq::new(
        row.len(),
        |c: int|
            if x <= c < x + text.len() {
                text[c - x]
            } else {
                row[c]
            },
    )
}

/// A grid after `text` is written into row `row` from column `x` on.
pub open spec fn overlay_text(grid: Seq<Seq<char>>, row: int, x: int, text: Seq<char>) -> Seq<
    Seq<char>,
> {
    grid.update(row, overlay_row(grid[row], x, text))
}

/// A grid after a block of lines is written into it: line 0 into row `top`,
/// each further line into the row below, all from column `x` on.
pub open spec fn overlay_block(grid: Seq<Seq<char>>, top: int, x: int, lines: Seq<Seq<char>>) -> Seq<
    Seq<char>,
> {
    Seq::new(
        grid.len(),
        |r: int|
            if top <= r < top + lines.len() {
                overlay_row(grid[r], x, lines[r - top])
            } else {
                grid[r]
            },
    )
}

/// A grid after glyphs are written into it side by side: glyph `k` from
/// column `k * pitch` on, each with its line 0 in row `top`. Where glyphs
/// overlap, the later one covers the earlier.
pub open spec fn overlay_glyphs(
    grid: Seq<Seq<char>>,
    top: int,
    pitch: int,
    glyphs: Seq<Seq<Seq<char>>>,
) -> Seq<Seq<char>>
    decreases glyphs.len(),
{
    if glyphs.len() == 0 {
        grid
    } else {
        overlay_block(
            overlay_glyphs(grid, top, pitch, glyphs.drop_last()),
            top,
            (glyphs.len() - 1) * pitch,
            glyphs.last(),
        )
    }
}

/// The text of a frame: the rows from top to bottom, each followed by a
/// newline.
pub open spec fn frame_text(grid: Seq<Seq<char>>) -> Seq<char>
    decreases grid.len(),
{
    if grid.len() == 0 {
        Seq::empty()
    } else {
        frame_text(grid.drop_last()) + grid.last().push('\n')
    }
}

/// Where in the text of a frame with rows of `width` cells the cell at
/// column `col` of row `row`, counted from the top, stands. Column `width`
/// is the row's newline.
pub open spec fn text_index(width: int, row: int, col: int) -> int {
    row * (width + 1) + col
}

/// Where in the text of a `width` by `height` frame the cell at column `x`
/// of row `y`, counted from the bottom, stands.
pub open spec fn frame_index(width: int, height: int, x: int, y: int) -> int {
    text_index(width, storage_row(height, y), x)
}

/// How many characters of a text of `len` characters land inside a row of
/// `width` cells when the text is written from column `x` on.
pub open spec fn visible_len(width: int, x: int, len: int) -> int {
    if x >= width {
        0
    } else if len <= width - x {
        len
    } else {
        width - x
    }
}

/// `count` copies of `line`, one after the other.
pub open spec fn repeated(line: Seq<char>, count: nat) -> Seq<char>
    decreases count,
{
    if count == 0 {
        Seq::empty()
    } else {
        repeated(line, (count - 1) as nat) + line
    }
}

/// Text that starts at or beyond the end of a row, and text without
/// characters, leave the row as it is.
pub proof fn lemma_overlay_row_nothing(row: Seq<char>, x: int, text: Seq<char>)
    requires
        x >= row.len() || text.len() == 0,
    ensures
        overlay_row(row, x, text) == row,
{
    assert(overlay_row(row, x, text) =~= row);
}

/// Writing one more character of the text is writing that character into
/// the cell after the ones written so far.
pub proof fn lemma_overlay_row_step(row: Seq<char>, x: int, text: Seq<char>, i: int)
    requires
        0 <= x,
        0 <= i < text.len(),
        x + i < row.len(),
    ensures
        overlay_row(row, x, text.take(i + 1)) == overlay_row(row, x, text.take(i)).update(
            x + i,
            text[i],
        ),
{
    assert(overlay_row(row, x, text.take(i + 1)) =~= overlay_row(row, x, text.take(i)).update(
        x + i,
        text[i],
    ));
}

/// Only the characters that land inside the row count: once the first `i`
/// of them fill the row to its end, the others change nothing.
pub proof fn lemma_overlay_row_clipped(row: Seq<char>, x: int, text: Seq<char>, i: int)
    requires
        0 <= i <= text.len(),
        i == text.len() || x + i >= row.len(),
    ensures
        overlay_row(row, x, text.take(i)) == overlay_row(row, x, text),
{
    assert(overlay_row(row, x, text.take(i)) =~= overlay_row(row, x, text));
}

/// Writing the first `k + 1` glyphs is writing the first `k` and then
/// glyph `k` from column `k * pitch` on.
pub proof fn lemma_overlay_glyphs_step(
    grid: Seq<Seq<char>>,
    top: int,
    pitch: int,
    glyphs: Seq<Seq<Seq<char>>>,
    k: int,
)
    requires
        0 <= k < glyphs.len(),
    ensures
        overlay_glyphs(grid, top, pitch, glyphs.take(k + 1)) == overlay_block(
            overlay_glyphs(grid, top, pitch, glyphs.take(k)),
            top,
            k * pitch,
            glyphs[k],
        ),
{
    assert(glyphs.take(k + 1).drop_last() =~= glyphs.take(k));
}

/// Glyphs of one size, written side by side one glyph width apart, stand
/// next to each other without gap or overlap: in the rows of the block,
/// column `c` shows column `c % pitch` of glyph `c / pitch`, as far as there
/// are glyphs and the grid reaches. Every other cell stays as it is.
pub proof fn lemma_glyphs_side_by_side(
    grid: Seq<Seq<char>>,
    width: nat,
    height: nat,
    top: int,
    pitch: nat,
    lines: nat,
    glyphs: Seq<Seq<Seq<char>>>,
)
    requires
        is_rect(grid, width, height),
        0 <= top,
        top + lines <= height,
        forall|k: int| 0 <= k < glyphs.len() ==> is_rect(#[trigger] glyphs[k], pitch, lines),
    ensures
        is_rect(overlay_glyphs(grid, top, pitch as int, glyphs), width, height),
        forall|r: int, c: int|
            0 <= r < height && 0 <= c < width ==> #[trigger] overlay_glyphs(
                grid,
                top,
                pitch as int,
                glyphs,
            )[r][c] == if top <= r < top + lines && c < glyphs.len() * pitch {
                glyphs[c / (pitch as int)][r - top][c % (pitch as int)]
            } else {
                grid[r][c]
            },
    decreases glyphs.len(),
{
    let count = glyphs.len() as int;
    let p = pitch as int;
    let out = overlay_glyphs(grid, top, p, glyphs);
    if count == 0 {
        assert(count * p == 0) by (nonlinear_arith)
            requires
                count == 0,
        ;
    } else {
        let earlier = glyphs.drop_last();
        let prev = overlay_glyphs(grid, top, p, earlier);
        let last = glyphs.last();
        let left = (count - 1) * p;
        lemma_glyphs_side_by_side(grid, width, height, top, pitch, lines, earlier);
        assert(left + p == count * p && 0 <= left) by (nonlinear_arith)
            requires
                left == (count - 1) * p,
                count >= 1,
                p >= 0,
        ;
        assert(is_rect(last, pitch, lines));
        assert forall|r: int, c: int| 0 <= r < height && 0 <= c < width implies #[trigger] out[r][c]
            == if top <= r < top + lines && c < count * p {
            glyphs[c / p][r - top][c % p]
        } else {
            grid[r][c]
        } by {
            assert(prev[r].len() == width);
            if top <= r < top + lines {
                assert(out[r] == overlay_row(prev[r], left, last[r - top]));
                assert(last[r - top].len() == pitch);
                if left <= c < left + p {
                    lemma_fundamental_div_mod_converse_div(c, p, count - 1, c - left);
                    lemma_fundamental_div_mod_converse_mod(c, p, count - 1, c - left);
                } else if c < left {
                    lemma_div_pos_is_pos(c, p);
                    assert(p * (count - 1) == left) by (nonlinear_arith)
                        requires
                            left == (count - 1) * p,
                    ;
                    lemma_multiply_divide_lt(c, p, count - 1);
                    assert(earlier[c / p] == glyphs[c / p]);
                }
            }
        }
    }
}

/// Where the lines of a block land, in the caller's terms: when a block of
/// `lines` is written with its last line on row `y`, counted from the
/// bottom, line `i` is written into row `y + (lines.len() - 1 - i)`, so that
/// line 0 is the highest; rows outside the block stay as they are.
pub proof fn lemma_block_rows(
    grid: Seq<Seq<char>>,
    height: nat,
    x: int,
    y: nat,
    lines: Seq<Seq<char>>,
)
    requires
        grid.len() == height,
        y + lines.len() <= height,
    ensures
        ({
            let written = overlay_block(
                grid,
                block_top(height as int, y as int, lines.len() as int),
                x,
                lines,
            );
            &&& written.len() == height
            &&& forall|i: int|
                0 <= i < lines.len() ==> {
                    let r = #[trigger] storage_row(height as int, y + (lines.len() - 1 - i));
                    written[r] == overlay_row(grid[r], x, lines[i])
                }
            &&& forall|v: int|
                0 <= v < height && !(y <= v < y + lines.len()) ==> {
                    let r = #[trigger] storage_row(height as int, v);
                    written[r] == grid[r]
                }
        }),
{
}

/// The text of a rectangular frame has one character per cell and one
/// newline per row, and each cell stands at its place: row after row from
/// the top, each row's cells from the left, then its newline.
pub proof fn lemma_frame_text_layout(grid: Seq<Seq<char>>, width: nat, height: nat)
    requires
        is_rect(grid, width, height),
    ensures
        frame_text(grid).len() == height * (width + 1),
        forall|r: int, c: int|
            0 <= r < height && 0 <= c <= width ==> {
                let k = #[trigger] text_index(width as int, r, c);
                &&& 0 <= k < frame_text(grid).len()
                &&& frame_text(grid)[k] == if c < width {
                    grid[r][c]
                } else {
                    '\n'
                }
            },
    decreases height,
{
    let line = width + 1;
    if height == 0 {
        assert(height * line == 0) by (nonlinear_arith)
            requires
                height == 0,
        ;
    } else {
        let upper = grid.drop_last();
        let rest = (height - 1) as nat;
        lemma_frame_text_layout(upper, width, rest);
        assert(rest * line + line == height * line) by (nonlinear_arith)
            requires
                rest == height - 1,
        ;
        assert forall|r: int, c: int| 0 <= r < height && 0 <= c <= width implies {
            let k = #[trigger] text_index(width as int, r, c);
            &&& 0 <= k < frame_text(grid).len()
            &&& frame_text(grid)[k] == if c < width {
                grid[r][c]
            } else {
                '\n'
            }
        } by {
            assert(0 <= r * line && (r < rest ==> r * line + line <= rest * line) && (r == rest
                ==> r * line == rest * line)) by (nonlinear_arith)
                requires
                    0 <= r <= rest,
                    line > 0,
            ;
            if r < rest {
                assert(upper[r] == grid[r]);
                assert(text_index(width as int, r, c) < frame_text(upper).len());
            }
        }
    }
}

/// The text of a blank frame is one line of `width` background characters
/// and a newline, `height` times over.
pub proof fn lemma_blank_frame_text(width: nat, height: nat, bg: char)
    ensures
        frame_text(blank(width, height, bg)) == repeated(
            Seq::new(width, |c: int| bg).push('\n'),
            height,
        ),
    decreases height,
{
    if height > 0 {
        let rest = (height - 1) as nat;
        lemma_blank_frame_text(width, rest, bg);
        assert(blank(width, height, bg).drop_last() =~= blank(width, rest, bg));
        assert(blank(width, height, bg).last() =~= Seq::new(width, |c: int| bg));
    }
}

/// Every place in the text of a rectangular frame is that of one cell or
/// of one row's newline.
pub proof fn lemma_text_index_covers(width: int, height: int, k: int)
    requires
        0 <= width,
        0 <= k < height * (width + 1),
    ensures
        0 <= k / (width + 1) < height,
        0 <= k % (width + 1) <= width,
        k == text_index(width, k / (width + 1), k % (width + 1)),
{
    let line = width + 1;
    lemma_fundamental_div_mod(k, line);
    lemma_mod_pos_bound(k, line);
    lemma_div_pos_is_pos(k, line);
    assert(height * line == line * height) by (nonlinear_arith);
    lemma_multiply_divide_lt(k, line, height);
    assert(line * (k / line) == (k / line) * line) by (nonlinear_arith);
}

/// After `text` is written from column `x` of row `y`, counted from the
/// bottom, the text of the frame shows its characters in that row from that
/// column on, as far as the row reaches: column `c` shows character `c - x`.
/// Nothing else has changed: not the length of the text, nor any character
/// elsewhere.
pub proof fn lemma_written_text_in_frame(
    grid: Seq<Seq<char>>,
    width: nat,
    height: nat,
    x: nat,
    y: nat,
    text: Seq<char>,
)
    requires
        is_rect(grid, width, height),
        y < height,
    ensures
        ({
            let row = storage_row(height as int, y as int);
            let before = frame_text(grid);
            let after = frame_text(overlay_text(grid, row, x as int, text));
            let first = frame_index(width as int, height as int, x as int, y as int);
            let shown = visible_len(width as int, x as int, text.len() as int);
            &&& after.len() == before.len()
            &&& forall|c: int|
                x <= c < x + shown ==> {
                    let k = #[trigger] frame_index(width as int, height as int, c, y as int);
                    &&& 0 <= k < after.len()
                    &&& after[k] == text[c - x]
                }
            &&& forall|k: int|
                0 <= k < after.len() && !(first <= k < first + shown) ==> #[trigger] after[k]
                    == before[k]
        }),
{
    let row = storage_row(height as int, y as int);
    let written = overlay_text(grid, row, x as int, text);
    let before = frame_text(grid);
    let after = frame_text(written);
    let first = frame_index(width as int, height as int, x as int, y as int);
    let shown = visible_len(width as int, x as int, text.len() as int);
    lemma_frame_text_layout(grid, width, height);
    lemma_frame_text_layout(written, width, height);
    assert forall|c: int| x <= c < x + shown implies {
        let k = #[trigger] frame_index(width as int, height as int, c, y as int);
        &&& 0 <= k < after.len()
        &&& after[k] == text[c - x]
    } by {
        assert(frame_index(width as int, height as int, c, y as int) == text_index(
            width as int,
            row,
            c,
        ));
    }
    assert forall|k: int| 0 <= k < after.len() && !(first <= k < first + shown) implies
        #[trigger] after[k] == before[k] by {
        lemma_text_index_covers(width as int, height as int, k);
        let r = k / (width as int + 1);
        let c = k % (width as int + 1);
        assert(k == text_index(width as int, r, c));
        if r == row {
            assert(first == text_index(width as int, row, x as int));
            assert(!(x <= c < x + shown));
        }
    }
}

} // verus!
