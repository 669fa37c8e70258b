//! The glyph table: multi-row box-drawing glyphs for the ten digits and for
//! three classes of delimiter, in a normal and a compact face.

use vstd::prelude::*;

verus! {

/// Digit rows of the normal face: five rows per digit, top row first,
/// digits in ascending order.
pub const NUMBERS: [&'static str; 50] = [
    "┌─┐",
    "│ │",
    "│ │",
    "│ │",
    "└─┘",
    " ┐ ",
    " │ ",
    " │ ",
    " │ ",
    " ┴ ",
    "╶─┐",
    "  │",
    "┌─┘",
    "│  ",
    "└─╴",
    "╶─┐",
    "  │",
    "╶─┤",
    "  │",
    "╶─┘",
    "╷ ╷",
    "│ │",
    "└─┤",
    "  │",
    "  ╵",
    "┌─╴",
    "│  ",
    "└─┐",
    "  │",
    "╶─┘",
    "┌─╴",
    "│  ",
    "├─┐",
    "│ │",
    "└─┘",
    "╶─┐",
    "  │",
    "  │",
    "  │",
    "  ╵",
    "┌─┐",
    "│ │",
    "├─┤",
    "│ │",
    "└─┘",
    "┌─┐",
    "│ │",
    "└─┤",
    "  │",
    "╶─┘",
];

/// Delimiter rows of the normal face: colon, period, blank.
pub const DELIM: [&'static str; 15] = [
    "   ",
    " • ",
    "   ",
    " • ",
    "   ",
    "   ",
    "   ",
    "   ",
    "   ",
    " • ",
    "   ",
    "   ",
    "   ",
    "   ",
    "   ",
];

/// Digit rows of the compact face: three rows per digit.
pub const COMPACT_NUMBERS: [&'static str; 30] = [
    "┌┐", "││", "└┘",
    " ┐", " │", " ┴",
    "╶┐", "┌┘", "└╴",
    "╶┐", "╶┤", "╶┘",
    "╷╷", "└┤", " ╵",
    "┌╴", "└┐", "╶┘",
    "┌╴", "├┐", "└┘",
    "╶┐", " │", " ╵",
    "┌┐", "├┤", "└┘",
    "┌┐", "└┤", "╶┘",
];

/// Delimiter rows of the compact face: colon, period, blank.
pub const COMPACT_DELIM: [&'static str; 9] = [
    "  ", " :", "  ",
    "  ", "  ", " •",
    "  ", "  ", "  ",
];

/// The rows of a table as character sequences.
pub open spec fn rows_of(table: Seq<&'static str>) -> Seq<Seq<char>> {
    Seq::new(table.len(), |i: int| table[i]@)
}

/// The block of `height` consecutive rows that starts at row `index * height`.
pub open spec fn block(rows: Seq<Seq<char>>, index: int, height: int) -> Seq<Seq<char>> {
    Seq::new(height as nat, |r: int| rows[index * height + r])
}

/// Which delimiter block a character selects: the colon the first, the
/// period the second, and every other character the third (a blank spacer).
pub open spec fn delimiter_index(kind: char) -> int {
    if kind == ':' {
        0
    } else if kind == '.' {
        1
    } else {
        2
    }
}

/// A face: the glyphs of the ten digits and of the three delimiter classes.
pub struct Symbols {
    /// The digit rows: `height` rows for each digit, from 0 to 9.
    pub chars: Vec<String>,
    /// The delimiter rows: `height` rows each for colon, period and blank.
    pub delims: Vec<String>,
    /// The number of characters in every row.
    pub width: usize,
    /// The number of rows in every glyph.
    pub height: usize,
}

/// Every row of the normal face is three characters wide.
pub proof fn lemma_normal_rows_width()
    ensures
        forall|i: int| 0 <= i < 50 ==> (#[trigger] NUMBERS@[i])@.len() == 3,
        forall|i: int| 0 <= i < 15 ==> (#[trigger] DELIM@[i])@.len() == 3,
{
    reveal_strlit("┌─┐");
    reveal_strlit("│ │");
    reveal_strlit("└─┘");
    reveal_strlit(" ┐ ");
    reveal_strlit(" │ ");
    reveal_strlit(" ┴ ");
    reveal_strlit("╶─┐");
    reveal_strlit("  │");
    reveal_strlit("┌─┘");
    reveal_strlit("│  ");
    reveal_strlit("└─╴");
    reveal_strlit("╶─┤");
    reveal_strlit("╶─┘");
    reveal_strlit("╷ ╷");
    reveal_strlit("└─┤");
    reveal_strlit("  ╵");
    reveal_strlit("┌─╴");
    reveal_strlit("└─┐");
    reveal_strlit("├─┐");
    reveal_strlit("├─┤");
    reveal_strlit("   ");
    reveal_strlit(" • ");
}

/// Every row of the compact face is two characters wide.
pub proof fn lemma_compact_rows_width()
    ensures
        forall|i: int| 0 <= i < 30 ==> (#[trigger] COMPACT_NUMBERS@[i])@.len() == 2,
        forall|i: int| 0 <= i < 9 ==> (#[trigger] COMPACT_DELIM@[i])@.len() == 2,
{
    reveal_strlit("┌┐");
    reveal_strlit("││");
    reveal_strlit("└┘");
    reveal_strlit(" ┐");
    reveal_strlit(" │");
    reveal_strlit(" ┴");
    reveal_strlit("╶┐");
    reveal_strlit("┌┘");
    reveal_strlit("└╴");
    reveal_strlit("╶┤");
    reveal_strlit("╶┘");
    reveal_strlit("╷╷");
    reveal_strlit("└┤");
    reveal_strlit(" ╵");
    reveal_strlit("┌╴");
    reveal_strlit("└┐");
    reveal_strlit("├┐");
    reveal_strlit("├┤");
    reveal_strlit("  ");
    reveal_strlit(" :");
    reveal_strlit(" •");
}

/// An owned copy of a table of rows.
fn owned_rows(rows: &[&'static str]) -> (table: Vec<String>)
    ensures
        table.deep_view() == rows_of(rows@),
{
    let mut table: Vec<String> = Vec::new();
    let mut i: usize = 0;
    while i < rows.len()
        invariant
            i <= rows@.len(),
            table@.len() == i,
            forall|k: int| 0 <= k < i ==> (#[trigger] table@[k])@ == rows@[k]@,
        decreases rows@.len() - i,
    {
        table.push(rows[i].to_owned());
        i += 1;
    }
    assert(table.deep_view() =~= rows_of(rows@));
    table
}

/// Whether every row is exactly `width` characters long.
fn rows_have_width(rows: &Vec<String>, width: usize) -> (ok: bool)
    ensures
        ok == (forall|i: int| 0 <= i < rows@.len() ==> (#[trigger] rows@[i])@.len() == width),
{
    let mut i: usize = 0;
    while i < rows.len()
        invariant
            i <= rows@.len(),
            forall|k: int| 0 <= k < i ==> (#[trigger] rows@[k])@.len() == width,
        decreases rows@.len() - i,
    {
        if rows[i].as_str().unicode_len() != width {
            return false;
        }
        i += 1;
    }
    true
}

impl Symbols {
    /// The digit rows as character sequences.
    pub open spec fn digit_rows(&self) -> Seq<Seq<char>> {
        self.chars.deep_view()
    }

    /// The delimiter rows as character sequences.
    pub open spec fn delimiter_rows(&self) -> Seq<Seq<char>> {
        self.delims.deep_view()
    }

    /// A table is well formed when it holds a block of `height` rows for each
    /// of the ten digits and the three delimiter classes, and every row is
    /// exactly `width` characters long.
    pub open spec fn wf(&self) -> bool {
        &&& self.digit_rows().len() == 10 * self.height
        &&& self.delimiter_rows().len() == 3 * self.height
        &&& forall|i: int|
            0 <= i < self.digit_rows().len() ==> (#[trigger] self.digit_rows()[i]).len()
                == self.width
        &&& forall|i: int|
            0 <= i < self.delimiter_rows().len() ==> (#[trigger] self.delimiter_rows()[i]).len()
                == self.width
    }

    /// The normal face: glyphs three characters wide and five rows tall.
    pub fn normal() -> (table: Symbols)
        ensures
            table.wf(),
            table.width == 3,
            table.height == 5,
            table.digit_rows() == rows_of(NUMBERS@),
            table.delimiter_rows() == rows_of(DELIM@),
    {
        proof {
            lemma_normal_rows_width();
        }
        Symbols {
            chars: owned_rows(&NUMBERS),
            delims: owned_rows(&DELIM),
            width: 3,
            height: 5,
        }
    }

    /// The compact face: glyphs two characters wide and three rows tall.
    pub fn compact() -> (table: Symbols)
        ensures
            table.wf(),
            table.width == 2,
            table.height == 3,
            table.digit_rows() == rows_of(COMPACT_NUMBERS@),
            table.delimiter_rows() == rows_of(COMPACT_DELIM@),
    {
        proof {
            lemma_compact_rows_width();
        }
        Symbols {
            chars: owned_rows(&COMPACT_NUMBERS),
            delims: owned_rows(&COMPACT_DELIM),
            width: 2,
            height: 3,
        }
    }

    /// Checks a table at run time: whether it is well formed.
    pub fn is_well_formed(&self) -> (ok: bool)
        ensures
            ok == self.wf(),
    {
        let counts = self.chars.len() / 10 == self.height && self.chars.len() % 10 == 0
            && self.delims.len() / 3 == self.height && self.delims.len() % 3 == 0;
        let ok = counts && rows_have_width(&self.chars, self.width) && rows_have_width(
            &self.delims,
            self.width,
        );
        proof {
            assert forall|i: int| 0 <= i < self.chars@.len() implies self.chars@[i]@
                == #[trigger] self.digit_rows()[i] by {}
            assert forall|i: int| 0 <= i < self.delims@.len() implies self.delims@[i]@
                == #[trigger] self.delimiter_rows()[i] by {}
            if ok {
                assert(self.wf());
            }
            if self.wf() {
                assert forall|i: int| 0 <= i < self.chars@.len() implies (
                #[trigger] self.chars@[i])@.len() == self.width by {
                    assert(self.chars@[i]@ == self.digit_rows()[i]);
                }
                assert forall|i: int| 0 <= i < self.delims@.len() implies (
                #[trigger] self.delims@[i])@.len() == self.width by {
                    assert(self.delims@[i]@ == self.delimiter_rows()[i]);
                }
            }
        }
        ok
    }

    /// The glyph of the last decimal digit of `value`, top row first.
    pub open spec fn digit_glyph(&self, value: nat) -> Seq<Seq<char>> {
        block(self.digit_rows(), (value % 10) as int, self.height as int)
    }

    /// The glyph of the delimiter class that `kind` selects, top row first.
    pub open spec fn delimiter_glyph(&self, kind: char) -> Seq<Seq<char>> {
        block(self.delimiter_rows(), delimiter_index(kind), self.height as int)
    }

    /// Copies the block of `height` rows that starts at row `index * height`.
    fn copy_block(table: &Vec<String>, index: usize, height: usize) -> (rows: Vec<String>)
        requires
            (index + 1) * height <= table@.len(),
        ensures
            rows.deep_view() == block(table.deep_view(), index as int, height as int),
    {
        assert(0 <= index * height && index * height + height == (index + 1) * height)
            by (nonlinear_arith);
        assert(table@.len() == table.len());
        let start = index * height;
        let mut rows: Vec<String> = Vec::new();
        let mut r: usize = 0;
        while r < height
            invariant
                r <= height,
                start + height <= table.len(),
                rows@.len() == r,
                forall|k: int| 0 <= k < r ==> (#[trigger] rows@[k])@ == table@[start + k]@,
            decreases height - r,
        {
            rows.push(table[start + r].clone());
            r += 1;
        }
        assert(rows.deep_view() =~= block(table.deep_view(), index as int, height as int));
        rows
    }

    /// The glyph rows of the delimiter `delim_char`. A character that is
    /// neither a colon nor a period is not an error: it gets the blank spacer.
    pub fn delimiters_of(&self, delim_char: char) -> (rows: Vec<String>)
        requires
            self.wf(),
        ensures
            rows.deep_view() == self.delimiter_glyph(delim_char),
            rows@.len() == self.height,
            forall|r: int| 0 <= r < rows@.len() ==> (#[trigger] rows@[r])@.len() == self.width,
    {
        let offset: usize = match delim_char {
            ':' => 0,
            '.' => 1,
            _ => 2,
        };
        assert((offset + 1) * self.height <= 3 * self.height) by (nonlinear_arith)
            requires
                offset <= 2,
        ;
        let rows = Self::copy_block(&self.delims, offset, self.height);
        proof {
            self.lemma_delimiter_glyph_shape(delim_char);
            assert forall|r: int| 0 <= r < rows@.len() implies (#[trigger] rows@[r])@.len()
                == self.width by {
                assert(rows@[r]@ == rows.deep_view()[r]);
            }
        }
        rows
    }

    /// The glyph rows of the last decimal digit of `i`.
    pub fn nums_of(&self, i: usize) -> (rows: Vec<String>)
        requires
            self.wf(),
        ensures
            rows.deep_view() == self.digit_glyph(i as nat),
            rows@.len() == self.height,
            forall|r: int| 0 <= r < rows@.len() ==> (#[trigger] rows@[r])@.len() == self.width,
    {
        let dig = i % 10;
        assert((dig + 1) * self.height <= 10 * self.height) by (nonlinear_arith)
            requires
                dig <= 9,
        ;
        let rows = Self::copy_block(&self.chars, dig, self.height);
        proof {
            self.lemma_digit_glyph_shape(i as nat);
            assert forall|r: int| 0 <= r < rows@.len() implies (#[trigger] rows@[r])@.len()
                == self.width by {
                assert(rows@[r]@ == rows.deep_view()[r]);
            }
        }
        rows
    }

    /// Every digit glyph of a well-formed table has `height` rows of `width`
    /// characters each.
    pub proof fn lemma_digit_glyph_shape(&self, value: nat)
        requires
            self.wf(),
        ensures
            self.digit_glyph(value).len() == self.height,
            forall|r: int|
                0 <= r < self.height ==> (#[trigger] self.digit_glyph(value)[r]).len()
                    == self.width,
    {
        let d = (value % 10) as int;
        let h = self.height as int;
        assert forall|r: int| 0 <= r < h implies (#[trigger] self.digit_glyph(value)[r]).len()
            == self.width by {
            assert(0 <= d * h + r < 10 * h) by (nonlinear_arith)
                requires
                    0 <= d <= 9,
                    0 <= r < h,
            ;
            assert(self.digit_glyph(value)[r] == self.digit_rows()[d * h + r]);
        }
    }

    /// Every delimiter glyph of a well-formed table has `height` rows of
    /// `width` characters each.
    pub proof fn lemma_delimiter_glyph_shape(&self, kind: char)
        requires
            self.wf(),
        ensures
            self.delimiter_glyph(kind).len() == self.height,
            forall|r: int|
                0 <= r < self.height ==> (#[trigger] self.delimiter_glyph(kind)[r]).len()
                    == self.width,
    {
        let d = delimiter_index(kind);
        let h = self.height as int;
        assert forall|r: int| 0 <= r < h implies (#[trigger] self.delimiter_glyph(kind)[r]).len()
            == self.width by {
            assert(0 <= d * h + r < 3 * h) by (nonlinear_arith)
                requires
                    0 <= d <= 2,
                    0 <= r < h,
            ;
            assert(self.delimiter_glyph(kind)[r] == self.delimiter_rows()[d * h + r]);
        }
    }

    /// Only the last decimal digit of a value selects its glyph: adding any
    /// multiple of ten changes nothing.
    pub proof fn lemma_digit_glyph_periodic(&self, value: nat, k: nat)
        ensures
            self.digit_glyph(value + 10 * k) == self.digit_glyph(value),
    {
        assert((value + 10 * k) % 10 == value % 10) by (nonlinear_arith);
    }
}

} // verus!
