//! Laws of the display driver, stated and proved over the abstract state.

use vstd::prelude::*;

use crate::grid::{
    attr_of_word, cell_of_word, char_of_word, word_of, word_of_cell, ScreenChar, BUFFER_HEIGHT,
    BUFFER_WIDTH,
};
use crate::writer::{
    blank_word, cell_word, displayable, grid_displayable, indent_spec, norm_byte, norm_bytes,
    representable,
    run_spec, scroll_spec, step_spec, vga_wf, VgaState, INDENT_SIZE, PLACEHOLDER,
};

verus! {

/// Distinct cells have distinct flat indices.
proof fn lemma_cell_index_injective(r1: int, c1: int, r2: int, c2: int)
    requires
        0 <= c1 < BUFFER_WIDTH,
        0 <= c2 < BUFFER_WIDTH,
        r1 * BUFFER_WIDTH + c1 == r2 * BUFFER_WIDTH + c2,
    ensures
        r1 == r2 && c1 == c2,
{
}

/// A printable byte written at column `c < BUFFER_WIDTH` lands as a cell with
/// exactly that character and the current attribute at `(BUFFER_HEIGHT - 1,
/// c)`; the cursor advances by one and every other cell keeps its word.
pub proof fn lemma_printable_write_at_cursor(s: VgaState, b: u8)
    requires
        vga_wf(s),
        0x20 <= b <= 0x7e,
        s.col < BUFFER_WIDTH,
    ensures
        step_spec(s, b).col == s.col + 1,
        step_spec(s, b).attr == s.attr,
        cell_word(step_spec(s, b), BUFFER_HEIGHT - 1, s.col) == word_of(b, s.attr),
        cell_of_word(cell_word(step_spec(s, b), BUFFER_HEIGHT - 1, s.col)) == (ScreenChar {
            ascii_char: b,
            color_code: crate::color::ColorCode(s.attr),
        }),
        forall|r: int, c: int|
            0 <= r < BUFFER_HEIGHT && 0 <= c < BUFFER_WIDTH && !(r == BUFFER_HEIGHT - 1 && c
                == s.col) ==> cell_word(step_spec(s, b), r, c) == cell_word(s, r, c),
{
    lemma_word_decomposes(b, s.attr);
    assert forall|r: int, c: int|
        0 <= r < BUFFER_HEIGHT && 0 <= c < BUFFER_WIDTH && !(r == BUFFER_HEIGHT - 1 && c
            == s.col) implies cell_word(step_spec(s, b), r, c) == cell_word(s, r, c) by {
        if r * BUFFER_WIDTH + c == (BUFFER_HEIGHT - 1) * BUFFER_WIDTH + s.col {
            lemma_cell_index_injective(r, c, BUFFER_HEIGHT - 1 as int, s.col);
        }
    }
}

/// After a scroll-up, each row `r` in `[0, BUFFER_HEIGHT - 2]` holds exactly
/// the pre-scroll row `r + 1`, the new last row is entirely blank in the
/// writer's current attribute, and the cursor is at column 0.
pub proof fn lemma_scroll_rows(s: VgaState)
    requires
        vga_wf(s),
    ensures
        scroll_spec(s).col == 0,
        scroll_spec(s).attr == s.attr,
        scroll_spec(s).words.len() == s.words.len(),
        forall|r: int, c: int|
            0 <= r < BUFFER_HEIGHT - 1 && 0 <= c < BUFFER_WIDTH ==> cell_word(
                scroll_spec(s),
                r,
                c,
            ) == cell_word(s, r + 1, c),
        forall|c: int|
            0 <= c < BUFFER_WIDTH ==> #[trigger] cell_word(scroll_spec(s), BUFFER_HEIGHT - 1, c)
                == blank_word(s.attr),
{
}

/// Tab indentation from a column left of the margin region advances the
/// cursor to the smallest tab stop (multiple of the tab width) strictly
/// greater than the current column, and touches no cell.
pub proof fn lemma_tab_next_stop(s: VgaState)
    requires
        vga_wf(s),
        s.col < BUFFER_WIDTH - INDENT_SIZE,
    ensures
        indent_spec(s).words == s.words,
        indent_spec(s).attr == s.attr,
        indent_spec(s).col % (INDENT_SIZE as int) == 0,
        s.col < indent_spec(s).col <= s.col + INDENT_SIZE,
        forall|m: int|
            #[trigger] (m % (INDENT_SIZE as int)) == 0 && m > s.col ==> m >= indent_spec(s).col,
{
    let c = s.col;
    let t = (c / (INDENT_SIZE as int) + 1) * (INDENT_SIZE as int);
    assert(t == c - c % 4 + 4 && t % 4 == 0) by (nonlinear_arith)
        requires
            c >= 0 && t == (c / 4 + 1) * 4,
    ;
    assert forall|m: int| #[trigger] (m % (INDENT_SIZE as int)) == 0 && m > c implies m
        >= indent_spec(s).col by {
        assert(m % 4 == 0 && t % 4 == 0 && m < t ==> m <= t - 4) by (nonlinear_arith);
    }
}

/// Tab indentation from a column in the margin region (at or past
/// `BUFFER_WIDTH - INDENT_SIZE`) clamps the cursor to the last column
/// instead of wrapping, and touches no cell.
pub proof fn lemma_tab_clamps_at_margin(s: VgaState)
    requires
        vga_wf(s),
        s.col >= BUFFER_WIDTH - INDENT_SIZE,
    ensures
        indent_spec(s).col == BUFFER_WIDTH - 1,
        indent_spec(s).words == s.words,
        indent_spec(s).attr == s.attr,
{
}

/// A byte outside the representable set (newline, tab, printable ASCII) is
/// dispatched as the placeholder glyph, never as itself.
pub proof fn lemma_placeholder_substitution(b: u8)
    requires
        !representable(b),
    ensures
        norm_byte(b) == PLACEHOLDER,
{
}

/// A cell word splits back into exactly the character and attribute bytes it
/// was packed from.
pub proof fn lemma_word_decomposes(ch: u8, attr: u8)
    ensures
        char_of_word(word_of(ch, attr)) == ch,
        attr_of_word(word_of(ch, attr)) == attr,
{
    assert((ch + attr * 256) % 256 == ch && (ch + attr * 256) / 256 == attr) by (nonlinear_arith)
        requires
            0 <= ch < 256 && 0 <= attr < 256,
    ;
}

/// Packing a cell into its word and unpacking it again returns the same
/// cell: the character and attribute bytes of a stored cell always come from
/// one and the same logical write, so no cell can be torn.
pub proof fn lemma_no_torn_cell(sc: ScreenChar)
    ensures
        cell_of_word(word_of_cell(sc)) == sc,
{
    lemma_word_decomposes(sc.ascii_char, sc.color_code.0);
}

/// Every cell word is the packing of the cell it stores: the word written by
/// one logical write determines both bytes of the cell.
pub proof fn lemma_word_of_cell_of_word(w: u16)
    ensures
        word_of_cell(cell_of_word(w)) == w,
{
    assert(w % 256 + (w / 256) * 256 == w) by (nonlinear_arith);
}

/// A scroll-up leaves every cell of the grid displayable: each cell is
/// either one the grid already held or a blank.
proof fn lemma_scroll_keeps_grid_displayable(s: VgaState)
    requires
        vga_wf(s),
        grid_displayable(s),
    ensures
        grid_displayable(scroll_spec(s)),
{
    lemma_word_decomposes(0x20, s.attr);
    assert forall|j: int| 0 <= j < scroll_spec(s).words.len() implies displayable(
        char_of_word(#[trigger] scroll_spec(s).words[j]),
    ) by {
        if j < (BUFFER_HEIGHT - 1) * BUFFER_WIDTH {
            assert(scroll_spec(s).words[j] == s.words[j + BUFFER_WIDTH]);
        } else {
            assert(scroll_spec(s).words[j] == blank_word(s.attr));
        }
    }
}

/// One dispatch step with a representable or placeholder byte leaves every
/// cell of the grid displayable: stored glyphs are the byte itself (when
/// printable or the placeholder), a blank, or a cell the grid already held.
pub proof fn lemma_step_keeps_grid_displayable(s: VgaState, b: u8)
    requires
        vga_wf(s),
        grid_displayable(s),
        representable(b) || b == PLACEHOLDER,
    ensures
        grid_displayable(step_spec(s, b)),
{
    if b == 0x0a {
        lemma_scroll_keeps_grid_displayable(s);
    } else if b != 0x09 {
        let u = if s.col >= BUFFER_WIDTH {
            scroll_spec(s)
        } else {
            s
        };
        if s.col >= BUFFER_WIDTH {
            lemma_scroll_keeps_grid_displayable(s);
        }
        lemma_word_decomposes(b, s.attr);
        let idx = (BUFFER_HEIGHT - 1) * BUFFER_WIDTH + u.col;
        assert forall|j: int| 0 <= j < step_spec(s, b).words.len() implies displayable(
            char_of_word(#[trigger] step_spec(s, b).words[j]),
        ) by {
            if j != idx {
                assert(step_spec(s, b).words[j] == u.words[j]);
            }
        }
    }
}

/// A text written through the normalizing dispatch never leaves a
/// non-representable glyph in the grid: if every cell was displayable
/// before, every cell is displayable after.
pub proof fn lemma_normalized_run_keeps_grid_displayable(s: VgaState, bs: Seq<u8>)
    requires
        vga_wf(s),
        grid_displayable(s),
    ensures
        grid_displayable(run_spec(s, norm_bytes(bs))),
    decreases bs.len(),
{
    if bs.len() > 0 {
        let nb = norm_bytes(bs);
        crate::writer::lemma_step_wf(s, nb.first());
        lemma_step_keeps_grid_displayable(s, nb.first());
        lemma_normalized_run_keeps_grid_displayable(step_spec(s, nb.first()), bs.drop_first());
        assert(norm_bytes(bs.drop_first()) =~= nb.drop_first());
    }
}

/// Writing a full row of printable bytes from column `col` fills the last
/// row cell by cell and moves the cursor past them, touching nothing else.
proof fn lemma_fill_row(s: VgaState, bs: Seq<u8>)
    requires
        vga_wf(s),
        s.col + bs.len() <= BUFFER_WIDTH,
        forall|k: int| 0 <= k < bs.len() ==> 0x20 <= #[trigger] bs[k] <= 0x7e,
    ensures
        run_spec(s, bs).col == s.col + bs.len(),
        run_spec(s, bs).attr == s.attr,
        run_spec(s, bs).words.len() == s.words.len(),
        forall|k: int|
            0 <= k < bs.len() ==> run_spec(s, bs).words[(BUFFER_HEIGHT - 1) * BUFFER_WIDTH + s.col
                + k] == word_of(#[trigger] bs[k], s.attr),
        forall|j: int|
            0 <= j < s.words.len() && !((BUFFER_HEIGHT - 1) * BUFFER_WIDTH + s.col <= j < (
            BUFFER_HEIGHT - 1) * BUFFER_WIDTH + s.col + bs.len()) ==> run_spec(s, bs).words[j]
                == s.words[j],
    decreases bs.len(),
{
    if bs.len() > 0 {
        let base = (BUFFER_HEIGHT - 1) * BUFFER_WIDTH + s.col;
        let b0 = bs.first();
        let s1 = step_spec(s, b0);
        assert(s1.words == s.words.update(base, word_of(b0, s.attr)));
        assert(forall|k: int| 0 <= k < bs.drop_first().len() ==> #[trigger] bs.drop_first()[k]
            == bs[k + 1]);
        lemma_fill_row(s1, bs.drop_first());
        let r = run_spec(s, bs);
        assert(r == run_spec(s1, bs.drop_first()));
        assert forall|k: int| 0 <= k < bs.len() implies r.words[base + k] == word_of(
            #[trigger] bs[k],
            s.attr,
        ) by {
            if k == 0 {
                assert(r.words[base] == s1.words[base]);
            } else {
                assert(bs.drop_first()[k - 1] == bs[k]);
                assert(r.words[base + 1 + (k - 1)] == word_of(bs.drop_first()[k - 1], s.attr));
            }
        }
        assert forall|j: int|
            0 <= j < s.words.len() && !(base <= j < base + bs.len()) implies r.words[j]
            == s.words[j] by {
            assert(r.words[j] == s1.words[j]);
        }
    }
}

/// Writing `BUFFER_WIDTH + 1` printable bytes in sequence from a fresh line
/// causes exactly one implicit scroll: the first `BUFFER_WIDTH` bytes end up
/// one row above the last, the last byte stands at column 0 of the (still)
/// last row, the rest of the last row is blank, every earlier row moved up
/// exactly once, and the cursor rests at column 1.
pub proof fn lemma_full_row_wraps_once(s: VgaState, bs: Seq<u8>)
    requires
        vga_wf(s),
        s.col == 0,
        bs.len() == BUFFER_WIDTH + 1,
        forall|k: int| 0 <= k < bs.len() ==> 0x20 <= #[trigger] bs[k] <= 0x7e,
    ensures
        run_spec(s, bs).col == 1,
        run_spec(s, bs).attr == s.attr,
        cell_word(run_spec(s, bs), BUFFER_HEIGHT - 1, 0) == word_of(
            bs[BUFFER_WIDTH as int],
            s.attr,
        ),
        forall|c: int|
            0 <= c < BUFFER_WIDTH ==> cell_word(run_spec(s, bs), BUFFER_HEIGHT - 2, c) == word_of(
                #[trigger] bs[c],
                s.attr,
            ),
        forall|c: int|
            1 <= c < BUFFER_WIDTH ==> #[trigger] cell_word(run_spec(s, bs), BUFFER_HEIGHT - 1, c)
                == blank_word(s.attr),
        forall|r: int, c: int|
            0 <= r < BUFFER_HEIGHT - 2 && 0 <= c < BUFFER_WIDTH ==> cell_word(run_spec(s, bs), r, c)
                == cell_word(s, r + 1, c),
{
    let prefix = bs.take(BUFFER_WIDTH as int);
    let last = bs[BUFFER_WIDTH as int];
    lemma_fill_row(s, prefix);
    let u = run_spec(s, prefix);
    assert(bs =~= prefix.push(last));
    crate::writer::lemma_run_push(s, prefix, last);
    assert(run_spec(s, bs) == step_spec(u, last));
    assert(u.col == BUFFER_WIDTH);
    let v = scroll_spec(u);
    assert(step_spec(u, last).words == v.words.update(
        (BUFFER_HEIGHT - 1) * BUFFER_WIDTH,
        word_of(last, u.attr),
    ));
}

} // verus!
