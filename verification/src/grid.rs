//! The character grid: a fixed 25x80 region of volatile cells.
//!
//! Each cell occupies one 16-bit word in row-major order: the low byte is the
//! ASCII character code, the high byte the packed attribute
//! (`background << 4 | foreground`). The words live behind volatile wrappers,
//! so every read and write reaches the underlying memory exactly once and is
//! never elided or reordered by the optimizer.

use vstd::prelude::*;

use crate::color::ColorCode;

verus! {

/// Number of rows in the grid.
pub const BUFFER_HEIGHT: usize = 25;

/// Number of columns in the grid.
pub const BUFFER_WIDTH: usize = 80;

/// Total number of cell words in the grid.
pub const GRID_WORDS: usize = 2000;

/// The atomic display unit: one character byte plus one attribute byte.
#[derive(Debug, Clone, Copy, PartialEq, Eq, Structural)]
pub struct ScreenChar {
    pub ascii_char: u8,
    pub color_code: ColorCode,
}

/// The 16-bit cell word with character `ch` in its low byte and attribute
/// `attr` in its high byte.
pub open spec fn word_of(ch: u8, attr: u8) -> u16 {
    (ch + attr * 256) as u16
}

/// The cell word that stores the given cell.
pub open spec fn word_of_cell(sc: ScreenChar) -> u16 {
    word_of(sc.ascii_char, sc.color_code.0)
}

/// The character byte held in the low byte of a cell word.
pub open spec fn char_of_word(w: u16) -> u8 {
    (w % 256) as u8
}

/// The attribute byte held in the high byte of a cell word.
pub open spec fn attr_of_word(w: u16) -> u8 {
    (w / 256) as u8
}

/// The cell stored by a cell word.
pub open spec fn cell_of_word(w: u16) -> ScreenChar {
    ScreenChar { ascii_char: char_of_word(w), color_code: ColorCode(attr_of_word(w)) }
}

#[verifier::external_type_specification]
#[verifier::external_body]
#[verifier::reject_recursive_types(T)]
pub struct ExVolatile<T: Copy>(volatile::Volatile<T>);

/// The value currently wrapped by a volatile cell word.
pub uninterp spec fn volatile_word(v: volatile::Volatile<u16>) -> u16;

/// Relies on volatile::Volatile::new: wraps the given value; never panics.
#[verifier::external_body]
fn volatile_new(w: u16) -> (v: volatile::Volatile<u16>)
    ensures
        volatile_word(v) == w,
{
    volatile::Volatile::new(w)
}

/// Relies on volatile::Volatile::read: a volatile, non-elidable read that
/// returns a copy of the wrapped value; never panics.
#[verifier::external_body]
fn volatile_read(v: &volatile::Volatile<u16>) -> (w: u16)
    ensures
        w == volatile_word(*v),
{
    v.read()
}

/// Relies on volatile::Volatile::write: a volatile, non-elidable write that
/// replaces the wrapped value; never panics.
#[verifier::external_body]
fn volatile_write(v: &mut volatile::Volatile<u16>, w: u16)
    ensures
        volatile_word(*final(v)) == w,
{
    v.write(w)
}

/// The live display region: `GRID_WORDS` volatile cell words in row-major
/// order, one 16-bit word per cell.
pub struct Buffer {
    words: Vec<volatile::Volatile<u16>>,
}

impl Buffer {
    /// The words currently stored in the region, in row-major order.
    pub closed spec fn view(self) -> Seq<u16> {
        self.words@.map_values(|v: volatile::Volatile<u16>| volatile_word(v))
    }

    /// The region has exactly one word per grid cell.
    pub open spec fn wf(self) -> bool {
        self.view().len() == GRID_WORDS
    }

    /// Allocates a grid region with every cell word zeroed.
    pub fn new() -> (b: Buffer)
        ensures
            b.wf(),
            forall|i: int| 0 <= i < GRID_WORDS ==> b.view()[i] == 0u16,
    {
        let mut words: Vec<volatile::Volatile<u16>> = Vec::new();
        let mut i: usize = 0;
        while i < GRID_WORDS
            invariant
                i <= GRID_WORDS,
                words@.len() == i,
                forall|j: int|
                    0 <= j < i ==> volatile_word(#[trigger] words@[j]) == 0u16,
            decreases GRID_WORDS - i,
        {
            let v = volatile_new(0);
            words.push(v);
            i += 1;
        }
        let b = Buffer { words };
        proof {
            assert(forall|j: int|
                0 <= j < GRID_WORDS ==> #[trigger] b.view()[j] == volatile_word(b.words@[j]));
        }
        b
    }

    /// Loads the cell word at flat index `i` with one volatile read.
    pub(crate) fn load(&self, i: usize) -> (w: u16)
        requires
            self.wf(),
            i < GRID_WORDS,
        ensures
            w == self.view()[i as int],
    {
        volatile_read(&self.words[i])
    }

    /// Stores the cell word at flat index `i` with one volatile write.
    pub(crate) fn store(&mut self, i: usize, w: u16)
        requires
            old(self).wf(),
            i < GRID_WORDS,
        ensures
            final(self).wf(),
            final(self).view() == old(self).view().update(i as int, w),
    {
        volatile_write(&mut self.words[i], w);
        proof {
            assert(final(self).view() =~= old(self).view().update(i as int, w));
        }
    }

    /// Reads the cell at `(row, col)`. Defined only inside the grid bounds;
    /// an out-of-range access is a programming error, not a recoverable one.
    pub fn read(&self, row: usize, col: usize) -> (sc: ScreenChar)
        requires
            self.wf(),
            row < BUFFER_HEIGHT,
            col < BUFFER_WIDTH,
        ensures
            sc == cell_of_word(self.view()[row * BUFFER_WIDTH + col]),
    {
        let w = self.load(row * BUFFER_WIDTH + col);
        ScreenChar { ascii_char: (w % 256) as u8, color_code: ColorCode((w / 256) as u8) }
    }

    /// Writes the cell at `(row, col)` as one whole cell word, so its
    /// character and attribute bytes always come from this single write.
    /// Defined only inside the grid bounds.
    pub fn write(&mut self, row: usize, col: usize, sc: ScreenChar)
        requires
            old(self).wf(),
            row < BUFFER_HEIGHT,
            col < BUFFER_WIDTH,
        ensures
            final(self).wf(),
            final(self).view() == old(self).view().update(
                row * BUFFER_WIDTH + col,
                word_of_cell(sc),
            ),
    {
        let w: u16 = (sc.ascii_char as u16) + (sc.color_code.0 as u16) * 256;
        self.store(row * BUFFER_WIDTH + col, w);
    }
}

} // verus!
