//! The screen buffer: a rectangular grid of characters that callers address
//! from the bottom left, with primitives to write text and glyphs into it and
//! to serialise it as one frame of text.

use crate::grid::{
    blank, block_top, frame_text, is_rect, lemma_overlay_row_clipped, lemma_overlay_row_nothing,
    lemma_overlay_row_step, overlay_block, overlay_text, storage_row,
};
use vstd::prelude::*;

verus! {

/// `String::push`: appends one character to the end of the string.
pub assume_specification[ String::push ](text: &mut String, ch: char)
    ensures
        final(text)@ == old(text)@.push(ch),
;

/// The characters of a string slice, in order.
fn chars_of(s: &str) -> (characters: Vec<char>)
    ensures
        characters@ == s@,
{
    let mut characters: Vec<char> = Vec::new();
    for c in it: s.chars()
        invariant
            characters@ == it.seq().take(it.index() as int),
    {
        characters.push(c);
    }
    characters
}

/// The rows of a buffer as a grid.
pub open spec fn grid_of(lines: Seq<Vec<char>>) -> Seq<Seq<char>> {
    Seq::new(lines.len(), |r: int| lines[r]@)
}

/// `height` rows of `width` cells, every cell holding `bg`.
fn blank_lines(width: usize, height: usize, bg: char) -> (lines: Vec<Vec<char>>)
    ensures
        grid_of(lines@) == blank(width as nat, height as nat, bg),
{
    let mut lines: Vec<Vec<char>> = Vec::new();
    let mut r: usize = 0;
    while r < height
        invariant
            r <= height,
            lines@.len() == r,
            forall|k: int| 0 <= k < r ==> (#[trigger] lines@[k])@ == Seq::new(width as nat, |c: int| bg),
        decreases height - r,
    {
        let line = vec![bg; width];
        assert(line@ =~= Seq::new(width as nat, |c: int| bg));
        lines.push(line);
        r += 1;
    }
    assert(grid_of(lines@) =~= blank(width as nat, height as nat, bg));
    lines
}

/// The dimension that a buffer gets when `n` is asked for: never less than
/// one.
pub open spec fn at_least_one(n: usize) -> usize {
    if n == 0 {
        1
    } else {
        n
    }
}

/// A screen of `width` by `height` characters.
pub struct ScrBuf {
    /// The rows, the top row first.
    pub lines: Vec<Vec<char>>,
    /// The number of columns.
    pub width: usize,
    /// The number of rows.
    pub height: usize,
    /// The character that `clear` last filled the screen with.
    pub bg: char,
    /// How many times the screen has been rendered.
    pub rendered_frames: usize,
}

impl View for ScrBuf {
    type V = Seq<Seq<char>>;

    /// The cells as a grid, the top row first.
    open spec fn view(&self) -> Seq<Seq<char>> {
        grid_of(self.lines@)
    }
}

impl ScrBuf {
    /// A buffer is well formed when its grid has `height` rows of `width`
    /// cells each and neither dimension is zero.
    pub open spec fn wf(&self) -> bool {
        &&& self.width >= 1
        &&& self.height >= 1
        &&& is_rect(self@, self.width as nat, self.height as nat)
    }

    /// Dimensions, background and frame count are those of `before`.
    pub open spec fn same_settings(&self, before: &ScrBuf) -> bool {
        &&& self.width == before.width
        &&& self.height == before.height
        &&& self.bg == before.bg
        &&& self.rendered_frames == before.rendered_frames
    }

    /// The buffer as one rendering leaves it: the same cells and settings,
    /// one more frame counted.
    pub open spec fn after_render(self) -> ScrBuf {
        ScrBuf { rendered_frames: (self.rendered_frames + 1) as usize, ..self }
    }

    /// Checks a buffer at run time: whether it is well formed.
    pub fn is_well_formed(&self) -> (ok: bool)
        ensures
            ok == self.wf(),
    {
        if self.width == 0 || self.height == 0 || self.lines.len() != self.height {
            return false;
        }
        let mut r: usize = 0;
        while r < self.lines.len()
            invariant
                r <= self.lines@.len(),
                self.lines@.len() == self.height,
                self.width >= 1,
                self.height >= 1,
                forall|k: int| 0 <= k < r ==> (#[trigger] self@[k]).len() == self.width,
            decreases self.lines@.len() - r,
        {
            if self.lines[r].len() != self.width {
                assert(self@[r as int].len() != self.width);
                return false;
            }
            r += 1;
        }
        true
    }

    /// A buffer of `w` by `h` cells, all holding `bg`. A dimension of zero is
    /// raised to one.
    pub fn new(w: usize, h: usize, bg: char) -> (buf: ScrBuf)
        ensures
            buf.wf(),
            buf.width == at_least_one(w),
            buf.height == at_least_one(h),
            buf.bg == bg,
            buf.rendered_frames == 0,
            buf@ == blank(buf.width as nat, buf.height as nat, bg),
    {
        let width: usize = if w == 0 { 1 } else { w };
        let height: usize = if h == 0 { 1 } else { h };
        ScrBuf { lines: blank_lines(width, height, bg), width, height, bg, rendered_frames: 0 }
    }

    /// Makes `bg` the background and fills every cell with it.
    pub fn clear(&mut self, bg: char)
        ensures
            final(self)@ == blank(old(self).width as nat, old(self).height as nat, bg),
            final(self).bg == bg,
            final(self).width == old(self).width,
            final(self).height == old(self).height,
            final(self).rendered_frames == old(self).rendered_frames,
            old(self).width >= 1 && old(self).height >= 1 ==> final(self).wf(),
    {
        self.bg = bg;
        self.lines = blank_lines(self.width, self.height, bg);
    }

    /// Writes `chr` at column `x` of row `y`, counted from the bottom.
    pub fn set_cell(&mut self, x: usize, y: usize, chr: char)
        requires
            old(self).wf(),
            x < old(self).width,
            y < old(self).height,
        ensures
            final(self)@ == old(self)@.update(
                storage_row(old(self).height as int, y as int),
                old(self)@[storage_row(old(self).height as int, y as int)].update(x as int, chr),
            ),
            final(self).same_settings(old(self)),
            final(self).wf(),
    {
        let line_idx = self.height - 1 - y;
        assert(self.lines@[line_idx as int]@ == self@[line_idx as int]);
        self.lines[line_idx][x] = chr;
        assert(self@ =~= old(self)@.update(
            line_idx as int,
            old(self)@[line_idx as int].update(x as int, chr),
        ));
    }

    /// Serialises the grid: the rows from top to bottom, each followed by a
    /// newline. The grid stays as it is; the frame count goes up by one.
    pub fn render(&mut self) -> (text: String)
        requires
            old(self).rendered_frames < usize::MAX,
        ensures
            text@ == frame_text(old(self)@),
            *final(self) == old(self).after_render(),
            final(self)@ == old(self)@,
            final(self).rendered_frames == old(self).rendered_frames + 1,
    {
        let mut acc = String::new();
        let mut r: usize = 0;
        while r < self.lines.len()
            invariant
                r <= self.lines@.len(),
                *self == *old(self),
                acc@ == frame_text(self@.take(r as int)),
            decreases self.lines@.len() - r,
        {
            let ghost above = acc@;
            let mut c: usize = 0;
            while c < self.lines[r].len()
                invariant
                    r < self.lines@.len(),
                    c <= self.lines@[r as int]@.len(),
                    *self == *old(self),
                    acc@ == above + self@[r as int].take(c as int),
                decreases self.lines@[r as int]@.len() - c,
            {
                acc.push(self.lines[r][c]);
                assert(self@[r as int].take(c as int).push(self@[r as int][c as int])
                    =~= self@[r as int].take(c + 1));
                c += 1;
            }
            acc.push('\n');
            proof {
                let upto = self@.take(r + 1);
                assert(upto.drop_last() =~= self@.take(r as int));
                assert(self@[r as int].take(c as int) =~= self@[r as int]);
                assert(acc@ =~= above + upto.last().push('\n'));
            }
            r += 1;
        }
        assert(self@.take(r as int) =~= self@);
        self.rendered_frames += 1;
        acc
    }

    /// Writes the characters from column `x` of row `y` on, as far as the
    /// row reaches.
    fn blit_chars(&mut self, x: usize, y: usize, characters: &Vec<char>)
        requires
            old(self).wf(),
            y < old(self).height,
        ensures
            final(self)@ == overlay_text(
                old(self)@,
                storage_row(old(self).height as int, y as int),
                x as int,
                characters@,
            ),
            final(self).same_settings(old(self)),
            final(self).wf(),
    {
        let ghost row = storage_row(self.height as int, y as int);
        let ghost line = self@[row];
        if x >= self.width {
            proof {
                lemma_overlay_row_nothing(line, x as int, characters@);
                assert(self@ =~= overlay_text(self@, row, x as int, characters@));
            }
            return ;
        }
        let room = self.width - x;
        let mut i: usize = 0;
        proof {
            lemma_overlay_row_nothing(line, x as int, characters@.take(0));
            assert(self@ =~= overlay_text(self@, row, x as int, characters@.take(0)));
        }
        while i < characters.len() && i < room
            invariant
                i <= characters@.len(),
                i <= room,
                room == self.width - x,
                y < self.height,
                row == storage_row(self.height as int, y as int),
                old(self).wf(),
                line == old(self)@[row],
                self.wf(),
                self.same_settings(old(self)),
                self@ == overlay_text(old(self)@, row, x as int, characters@.take(i as int)),
            decreases characters@.len() - i,
        {
            self.set_cell(x + i, y, characters[i]);
            proof {
                lemma_overlay_row_step(line, x as int, characters@, i as int);
                assert(self@ =~= overlay_text(old(self)@, row, x as int, characters@.take(i + 1)));
            }
            i += 1;
        }
        proof {
            lemma_overlay_row_clipped(line, x as int, characters@, i as int);
        }
    }

    /// Writes `s` from left to right, its first character at column `x` of
    /// row `y`, counted from the bottom. Characters that would land at or
    /// beyond column `width` are dropped.
    pub fn blit(&mut self, x: usize, y: usize, s: &str)
        requires
            old(self).wf(),
            y < old(self).height,
        ensures
            final(self)@ == overlay_text(
                old(self)@,
                storage_row(old(self).height as int, y as int),
                x as int,
                s@,
            ),
            final(self).same_settings(old(self)),
            final(self).wf(),
    {
        let characters = chars_of(s);
        self.blit_chars(x, y, &characters);
    }

    /// Writes `s` right-aligned: its last character at column `x - 1` of row
    /// `y`, its first at column `x` less the length of `s`, which must not
    /// exceed `x`. Characters that would land at or beyond column `width` are
    /// dropped.
    pub fn r_blit(&mut self, x: usize, y: usize, s: &str)
        requires
            old(self).wf(),
            y < old(self).height,
            s@.len() <= x,
        ensures
            final(self)@ == overlay_text(
                old(self)@,
                storage_row(old(self).height as int, y as int),
                x - s@.len(),
                s@,
            ),
            final(self).same_settings(old(self)),
            final(self).wf(),
    {
        let characters = chars_of(s);
        self.blit_chars(x - characters.len(), y, &characters);
    }

    /// Writes a glyph of several lines, line 0 topmost, so that its last line
    /// lands on row `y`, counted from the bottom, and the lines before it on
    /// the rows above: line `i` of `n` lands on row `y + (n - 1 - i)`. Each
    /// line is written from column `x` on and clipped at the right edge.
    pub fn blit_lines(&mut self, x: usize, y: usize, in_lines: &Vec<String>)
        requires
            old(self).wf(),
            y + in_lines@.len() <= old(self).height,
        ensures
            final(self)@ == overlay_block(
                old(self)@,
                block_top(old(self).height as int, y as int, in_lines@.len() as int),
                x as int,
                in_lines.deep_view(),
            ),
            final(self).same_settings(old(self)),
            final(self).wf(),
    {
        let count = in_lines.len();
        let ghost top = block_top(self.height as int, y as int, count as int);
        let ghost glyph = in_lines.deep_view();
        let mut i: usize = 0;
        while i < count
            invariant
                i <= count,
                count == in_lines@.len(),
                y + count <= self.height,
                top == block_top(self.height as int, y as int, count as int),
                glyph == in_lines.deep_view(),
                self.wf(),
                self.same_settings(old(self)),
                self@ == overlay_block(
                    old(self)@,
                    top + count - i,
                    x as int,
                    glyph.skip(count - i),
                ),
            decreases count - i,
        {
            let ly = y + i;
            self.blit(x, ly, in_lines[count - 1 - i].as_str());
            assert(self@ =~= overlay_block(
                old(self)@,
                top + count - (i + 1),
                x as int,
                glyph.skip(count - (i + 1)),
            ));
            i += 1;
        }
        assert(glyph.skip(0) =~= glyph);
    }

    /// Rendering twice in a row gives the same text both times and counts
    /// two frames.
    pub proof fn lemma_render_twice(self)
        requires
            self.rendered_frames + 2 <= usize::MAX,
        ensures
            frame_text(self.after_render()@) == frame_text(self@),
            self.after_render().after_render().rendered_frames == self.rendered_frames + 2,
            self.after_render().after_render()@ == self@,
    {
    }

    /// The number of frames rendered so far.
    pub fn frames(&self) -> (count: usize)
        ensures
            count == self.rendered_frames,
    {
        self.rendered_frames
    }
}

} // verus!
