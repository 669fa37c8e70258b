//! Composing a clock face: the digits of a time of day, as glyphs side by
//! side in a screen buffer.

use crate::buffer::ScrBuf;
use crate::counter::{Counter, CounterView};
use crate::grid::{
    blank, block_top, frame_text, lemma_overlay_glyphs_step, overlay_block, overlay_glyphs,
};
use crate::symbols::Symbols;
use vstd::arithmetic::div_mod::{lemma_basic_div, lemma_div_denominator, lemma_small_div_converse};
use vstd::arithmetic::power::{lemma_pow0, lemma_pow_increases, lemma_pow_positive, pow};
use vstd::prelude::*;

verus! {

/// The digit of `num` at position `place` in base `base`, position 0 being
/// the least significant.
pub open spec fn digit_at(base: int, place: nat, num: int) -> int {
    (num / pow(base, place)) % base
}

/// Extracts the digit of `num` at position `place` in base `base`.
pub fn digit(base: usize, place: isize, num: usize) -> (dig: usize)
    requires
        base >= 1,
        place >= 0,
    ensures
        dig == digit_at(base as int, place as nat, num as int),
        dig < base,
{
    if base == 1 {
        return 0;
    }
    let mut shifted = num;
    let mut k: isize = 0;
    proof {
        lemma_pow0(base as int);
    }
    while k < place && shifted > 0
        invariant
            0 <= k <= place,
            base >= 2,
            shifted == (num as int) / pow(base as int, k as nat),
        decreases place - k,
    {
        proof {
            lemma_pow_positive(base as int, k as nat);
            lemma_div_denominator(num as int, pow(base as int, k as nat), base as int);
            assert(pow(base as int, (k + 1) as nat) == pow(base as int, k as nat) * base) by {
                reveal(pow);
                assert(pow(base as int, (k + 1) as nat) == base * pow(base as int, k as nat));
                assert(base * pow(base as int, k as nat) == pow(base as int, k as nat) * base)
                    by (nonlinear_arith);
            }
        }
        shifted = shifted / base;
        k += 1;
    }
    proof {
        if k < place {
            lemma_pow_positive(base as int, k as nat);
            lemma_small_div_converse(num as int, pow(base as int, k as nat));
            lemma_pow_increases(base as nat, k as nat, place as nat);
            lemma_basic_div(num as int, pow(base as int, place as nat));
        }
    }
    shifted % base
}

/// Writes the glyph of the last decimal digit of `num` with its left edge
/// at column `x` and its bottom line on row `y`, counted from the bottom.
pub fn numeral(buf: &mut ScrBuf, num: usize, x: usize, y: usize, symbols: &Symbols)
    requires
        old(buf).wf(),
        symbols.wf(),
        y + symbols.height <= old(buf).height,
    ensures
        final(buf)@ == overlay_block(
            old(buf)@,
            block_top(old(buf).height as int, y as int, symbols.height as int),
            x as int,
            symbols.digit_glyph(num as nat),
        ),
        final(buf).same_settings(old(buf)),
        final(buf).wf(),
{
    let valid_num = num % 10;
    let strings: Vec<String> = symbols.nums_of(valid_num);
    buf.blit_lines(x, y, &strings);
}

/// Writes the glyph of the delimiter `delimiter` with its left edge at
/// column `x` and its bottom line on row `y`, counted from the bottom.
pub fn delim(buf: &mut ScrBuf, delimiter: char, x: usize, y: usize, symbols: &Symbols)
    requires
        old(buf).wf(),
        symbols.wf(),
        y + symbols.height <= old(buf).height,
    ensures
        final(buf)@ == overlay_block(
            old(buf)@,
            block_top(old(buf).height as int, y as int, symbols.height as int),
            x as int,
            symbols.delimiter_glyph(delimiter),
        ),
        final(buf).same_settings(old(buf)),
        final(buf).wf(),
{
    let strings: Vec<String> = symbols.delimiters_of(delimiter);
    buf.blit_lines(x, y, &strings);
}

/// One sign of a clock face: a digit or a delimiter.
#[derive(Clone, Copy, Debug, PartialEq, Eq)]
pub enum Symbol {
    /// The last decimal digit of the number.
    Digit(usize),
    /// A colon, a period, or a blank spacer for any other character.
    Delimiter(char),
}

/// The glyph that a face has for a sign.
pub open spec fn glyph_of(symbols: &Symbols, symbol: Symbol) -> Seq<Seq<char>> {
    match symbol {
        Symbol::Digit(num) => symbols.digit_glyph(num as nat),
        Symbol::Delimiter(kind) => symbols.delimiter_glyph(kind),
    }
}

/// The glyphs that a face has for a row of signs.
pub open spec fn glyphs_of(symbols: &Symbols, signs: Seq<Symbol>) -> Seq<Seq<Seq<char>>> {
    Seq::new(signs.len(), |k: int| glyph_of(symbols, signs[k]))
}

/// Writes a row of signs from the left edge on, each glyph one glyph width
/// to the right of the one before, all with their bottom line on row `y`,
/// counted from the bottom.
pub fn paint_symbols(buf: &mut ScrBuf, symbols: &Symbols, signs: &Vec<Symbol>, y: usize)
    requires
        old(buf).wf(),
        symbols.wf(),
        y + symbols.height <= old(buf).height,
        symbols.width <= isize::MAX,
        signs@.len() * symbols.width <= usize::MAX,
    ensures
        final(buf)@ == overlay_glyphs(
            old(buf)@,
            block_top(old(buf).height as int, y as int, symbols.height as int),
            symbols.width as int,
            glyphs_of(symbols, signs@),
        ),
        final(buf).same_settings(old(buf)),
        final(buf).wf(),
{
    let step = symbols.width as isize;
    let mut x_cursor = Counter::in_steps(0, step);
    let ghost top = block_top(buf.height as int, y as int, symbols.height as int);
    let ghost pitch = symbols.width as int;
    let ghost glyphs = glyphs_of(symbols, signs@);
    let mut k: usize = 0;
    while k < signs.len()
        invariant
            k <= signs@.len(),
            signs@.len() * pitch <= usize::MAX,
            pitch == symbols.width,
            top == block_top(buf.height as int, y as int, symbols.height as int),
            glyphs == glyphs_of(symbols, signs@),
            x_cursor@ == (CounterView { start: 0, stop: None, step: pitch, current: k * pitch }),
            symbols.wf(),
            y + symbols.height <= buf.height,
            buf.wf(),
            buf.same_settings(old(buf)),
            buf@ == overlay_glyphs(old(buf)@, top, pitch, glyphs.take(k as int)),
        decreases signs@.len() - k,
    {
        proof {
            assert(k * pitch + pitch == (k + 1) * pitch && 0 <= k * pitch && (k + 1) * pitch
                <= signs@.len() * pitch) by (nonlinear_arith)
                requires
                    0 <= k < signs@.len(),
                    0 <= pitch,
            ;
            lemma_overlay_glyphs_step(old(buf)@, top, pitch, glyphs, k as int);
        }
        match signs[k] {
            Symbol::Digit(num) => numeral(buf, num, x_cursor.next(), y, symbols),
            Symbol::Delimiter(kind) => delim(buf, kind, x_cursor.next(), y, symbols),
        }
        k += 1;
    }
    assert(glyphs.take(k as int) =~= glyphs);
}

/// A time of day, as plain numbers.
pub struct TimeSnapshot {
    /// The hour of the day.
    pub hour: usize,
    /// The minute of the hour.
    pub minute: usize,
    /// The second of the minute.
    pub second: usize,
    /// The milliseconds since the second began.
    pub milli: usize,
}

/// The number of signs on a clock face.
pub const FACE_GLYPHS: usize = 11;

/// The signs of a clock face from left to right: the tens and ones of the
/// hour, a colon, the tens and ones of the minute, a colon, the tens and
/// ones of the second, a period, the hundreds and tens of the milliseconds.
pub open spec fn face_symbols(now: &TimeSnapshot) -> Seq<Symbol> {
    seq![
        Symbol::Digit(digit_at(10, 1, now.hour as int) as usize),
        Symbol::Digit(digit_at(10, 0, now.hour as int) as usize),
        Symbol::Delimiter(':'),
        Symbol::Digit(digit_at(10, 1, now.minute as int) as usize),
        Symbol::Digit(digit_at(10, 0, now.minute as int) as usize),
        Symbol::Delimiter(':'),
        Symbol::Digit(digit_at(10, 1, now.second as int) as usize),
        Symbol::Digit(digit_at(10, 0, now.second as int) as usize),
        Symbol::Delimiter('.'),
        Symbol::Digit(digit_at(10, 2, now.milli as int) as usize),
        Symbol::Digit(digit_at(10, 1, now.milli as int) as usize),
    ]
}

/// The signs of the clock face for `now`.
pub fn face_of(now: &TimeSnapshot) -> (face: Vec<Symbol>)
    ensures
        face@ == face_symbols(now),
        face@.len() == FACE_GLYPHS,
{
    let mut face: Vec<Symbol> = Vec::new();
    face.push(Symbol::Digit(digit(10, 1, now.hour)));
    face.push(Symbol::Digit(digit(10, 0, now.hour)));
    face.push(Symbol::Delimiter(':'));
    face.push(Symbol::Digit(digit(10, 1, now.minute)));
    face.push(Symbol::Digit(digit(10, 0, now.minute)));
    face.push(Symbol::Delimiter(':'));
    face.push(Symbol::Digit(digit(10, 1, now.second)));
    face.push(Symbol::Digit(digit(10, 0, now.second)));
    face.push(Symbol::Delimiter('.'));
    face.push(Symbol::Digit(digit(10, 2, now.milli)));
    face.push(Symbol::Digit(digit(10, 1, now.milli)));
    assert(face@ =~= face_symbols(now));
    face
}

/// Writes the clock face for `now` along the bottom of the buffer, from the
/// left edge on.
pub fn paint_time(buf: &mut ScrBuf, symbols: &Symbols, now: &TimeSnapshot)
    requires
        old(buf).wf(),
        symbols.wf(),
        symbols.height <= old(buf).height,
        symbols.width <= isize::MAX,
        FACE_GLYPHS * symbols.width <= usize::MAX,
    ensures
        final(buf)@ == overlay_glyphs(
            old(buf)@,
            block_top(old(buf).height as int, 0, symbols.height as int),
            symbols.width as int,
            glyphs_of(symbols, face_symbols(now)),
        ),
        final(buf).same_settings(old(buf)),
        final(buf).wf(),
{
    let btm: usize = 0;
    let face = face_of(now);
    paint_symbols(buf, symbols, &face, btm);
}

/// One frame of the clock: fills the buffer with spaces, writes the face
/// for `now` along its bottom, and returns the text of the frame.
pub fn draw_frame(buf: &mut ScrBuf, symbols: &Symbols, now: &TimeSnapshot) -> (text: String)
    requires
        old(buf).width >= 1,
        old(buf).height >= 1,
        old(buf).rendered_frames < usize::MAX,
        symbols.wf(),
        symbols.height <= old(buf).height,
        symbols.width <= isize::MAX,
        FACE_GLYPHS * symbols.width <= usize::MAX,
    ensures
        final(buf)@ == overlay_glyphs(
            blank(old(buf).width as nat, old(buf).height as nat, ' '),
            block_top(old(buf).height as int, 0, symbols.height as int),
            symbols.width as int,
            glyphs_of(symbols, face_symbols(now)),
        ),
        text@ == frame_text(final(buf)@),
        final(buf).width == old(buf).width,
        final(buf).height == old(buf).height,
        final(buf).bg == ' ',
        final(buf).rendered_frames == old(buf).rendered_frames + 1,
        final(buf).wf(),
{
    buf.clear(' ');
    paint_time(buf, symbols, now);
    buf.render()
}

} // verus!
