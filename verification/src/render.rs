//! The textual snapshot of a grid: one line per row, one glyph per cell, and
//! a line break after every row, the last one included.

use crate::grid::Grid;
use vstd::arithmetic::div_mod::{lemma_fundamental_div_mod, lemma_fundamental_div_mod_converse};
use vstd::prelude::*;
use vstd::seq_lib::to_multiset_build;

verus! {

/// The glyph of a live cell, a full block.
pub const LIVE_GLYPH: char = '\u{2588}';

/// The glyph of a dead cell.
pub const DEAD_GLYPH: char = '.';

/// What ends every row of a snapshot.
pub const LINE_BREAK: char = '\n';

/// The glyph that shows a cell.
pub open spec fn glyph(alive: bool) -> char {
    if alive {
        LIVE_GLYPH
    } else {
        DEAD_GLYPH
    }
}

/// How often `c` occurs in `text`.
pub open spec fn occurrences(text: Seq<char>, c: char) -> nat {
    text.to_multiset().count(c)
}

/// `String::push` appends the character to the end of the string and leaves
/// what was there before in place.
pub assume_specification[ String::push ](text: &mut String, ch: char)
    ensures
        final(text)@ == old(text)@.push(ch),
;

impl Grid {
    /// The number of characters that a row takes in the snapshot: one for
    /// each cell and one for the line break.
    pub open spec fn line_length(self) -> int {
        (self.width as int) + 1
    }

    /// The text of one row: the glyphs of its cells from left to right, then
    /// a line break.
    pub open spec fn row_text(self, row: int) -> Seq<char> {
        Seq::new(self.width, |col: int| glyph(self.alive(row, col))).push(LINE_BREAK)
    }

    /// The snapshot: the texts of the rows from top to bottom, one after the
    /// other. Position `row * (width + 1) + col` holds the glyph of the cell
    /// at `(row, col)`, or the line break of that row where `col` is `width`.
    pub open spec fn rendering(self) -> Seq<char> {
        Seq::new(
            (self.height * self.line_length()) as nat,
            |i: int|
                {
                    let row: int = i / self.line_length();
                    let col: int = i % self.line_length();
                    if col == self.width {
                        LINE_BREAK
                    } else {
                        glyph(self.alive(row, col))
                    }
                },
        )
    }

    /// Where a cell, or the line break of a row, stands in the snapshot, and
    /// what stands there.
    pub proof fn lemma_rendering_at(self, row: int, col: int)
        requires
            0 <= row < self.height,
            0 <= col <= self.width,
        ensures
            0 <= row * self.line_length() + col < self.rendering().len(),
            self.rendering()[row * self.line_length() + col] == self.row_text(row)[col],
            col < self.width ==> self.rendering()[row * self.line_length() + col] == glyph(
                self.alive(row, col),
            ),
            col == self.width ==> self.rendering()[row * self.line_length() + col] == LINE_BREAK,
    {
        let m: int = self.line_length();
        let h: int = self.height as int;
        assert(0 <= row * m && row * m + col < h * m) by (nonlinear_arith)
            requires
                0 <= row < h,
                0 <= col < m,
        ;
        assert(m * row == row * m) by (nonlinear_arith);
        lemma_fundamental_div_mod_converse(row * m + col, m, row, col);
    }

    /// Every row of the snapshot is `width` glyphs followed by a line break,
    /// and the glyphs are those of the row's cells in order.
    pub proof fn lemma_rendering_rows(self, row: int)
        requires
            0 <= row < self.height,
        ensures
            (row + 1) * self.line_length() <= self.rendering().len(),
            self.rendering().subrange(row * self.line_length(), (row + 1) * self.line_length())
                == self.row_text(row),
    {
        let m: int = self.line_length();
        let h: int = self.height as int;
        assert((row + 1) * m == row * m + m && (row + 1) * m <= h * m && 0 <= row * m)
            by (nonlinear_arith)
            requires
                0 <= row < h,
                0 < m,
        ;
        let part = self.rendering().subrange(row * m, (row + 1) * m);
        assert forall|col: int| 0 <= col < m implies part[col] == self.row_text(row)[col] by {
            self.lemma_rendering_at(row, col);
        }
        assert(part =~= self.row_text(row));
    }

    /// The first `k` characters of the snapshot hold one line break for each
    /// row that they hold in full.
    proof fn lemma_line_breaks_in_prefix(self, k: int)
        requires
            0 <= k <= self.rendering().len(),
        ensures
            occurrences(self.rendering().take(k), LINE_BREAK) == k / self.line_length(),
        decreases k,
    {
        let m: int = self.line_length();
        let text = self.rendering();
        if k == 0 {
            assert(text.take(0) =~= Seq::<char>::empty());
            assert(Seq::<char>::empty().to_multiset().count(LINE_BREAK) == 0) by {
                Seq::<char>::empty().to_multiset_ensures();
            }
            assert(0int / m == 0);
        } else {
            let j: int = k - 1;
            self.lemma_line_breaks_in_prefix(j);
            assert(text.take(k) =~= text.take(j).push(text[j]));
            to_multiset_build(text.take(j), text[j]);
            lemma_fundamental_div_mod(j, m);
            assert(0 <= j % m < m);
            if j % m == self.width {
                assert(text[j] == LINE_BREAK);
                assert(m * (j / m + 1) == m * (j / m) + m) by (nonlinear_arith);
                lemma_fundamental_div_mod_converse(k, m, j / m + 1, 0);
            } else {
                assert(text[j] != LINE_BREAK);
                lemma_fundamental_div_mod_converse(k, m, j / m, j % m + 1);
            }
        }
    }

    /// The snapshot has `width + 1` characters for each row, and exactly
    /// `height` of them are line breaks.
    pub proof fn lemma_rendering_line_breaks(self)
        ensures
            self.rendering().len() == self.height * self.line_length(),
            occurrences(self.rendering(), LINE_BREAK) == self.height,
    {
        let m: int = self.line_length();
        let h: int = self.height as int;
        let text = self.rendering();
        self.lemma_line_breaks_in_prefix(text.len() as int);
        assert(text.take(text.len() as int) =~= text);
        assert(m * h == h * m) by (nonlinear_arith);
        lemma_fundamental_div_mod_converse(h * m, m, h, 0);
    }
}

} // verus!
