//! The writer: cursor tracking, byte dispatch, line wrap, scroll-up, tab
//! indentation, row clearing and color switching on the character grid.
//!
//! Writing always targets the fixed last row; vertical movement happens only
//! by scrolling the whole grid. The abstract state of the display is a
//! [`VgaState`], and every mutating operation is specified as a pure
//! transition on it.

use vstd::prelude::*;
use vstd::string::StringSliceAdditionalSpecFns;

use crate::color::{Color, ColorCode};
use crate::grid::{word_of, Buffer, ScreenChar, BUFFER_HEIGHT, BUFFER_WIDTH, GRID_WORDS};

verus! {

/// Fixed tab width: tab stops sit at multiples of this column count.
pub const INDENT_SIZE: usize = 4;

/// The glyph stored in place of any byte outside the representable set.
pub const PLACEHOLDER: u8 = 0xfe;

/// The abstract state of the display: the grid's cell words in row-major
/// order, the cursor column on the last row, and the current attribute.
#[verifier::ext_equal]
pub ghost struct VgaState {
    pub words: Seq<u16>,
    pub col: int,
    pub attr: u8,
}

/// Well-formedness of the abstract state: one word per grid cell, and the
/// cursor within `[0, BUFFER_WIDTH]`.
pub open spec fn vga_wf(s: VgaState) -> bool {
    &&& s.words.len() == GRID_WORDS
    &&& 0 <= s.col <= BUFFER_WIDTH
}

/// The cell word at `(row, col)` of an abstract state.
pub open spec fn cell_word(s: VgaState, row: int, col: int) -> u16 {
    s.words[row * BUFFER_WIDTH + col]
}

/// The blank cell word: a space glyph in the given attribute.
pub open spec fn blank_word(attr: u8) -> u16 {
    word_of(0x20, attr)
}

/// Scroll-up: every cell of rows `[1, BUFFER_HEIGHT)` moves one row up, the
/// newly vacant last row becomes blank in the current attribute, and the
/// cursor returns to column 0. Row 0 is discarded.
pub open spec fn scroll_spec(s: VgaState) -> VgaState {
    VgaState {
        words: Seq::new(
            s.words.len(),
            |i: int|
                if i < (BUFFER_HEIGHT - 1) * BUFFER_WIDTH {
                    s.words[i + BUFFER_WIDTH]
                } else {
                    blank_word(s.attr)
                },
        ),
        col: 0,
        attr: s.attr,
    }
}

/// Tab indentation: the cursor advances to the next multiple of the tab
/// width, without emitting a glyph. Near the right margin it instead clamps
/// to the last column rather than wrapping; this asymmetry with the
/// wrap-on-overflow of glyph writes is the device's specified behavior.
pub open spec fn indent_spec(s: VgaState) -> VgaState {
    VgaState {
        col: if s.col < BUFFER_WIDTH - INDENT_SIZE {
            (s.col / (INDENT_SIZE as int) + 1) * (INDENT_SIZE as int)
        } else {
            BUFFER_WIDTH - 1
        },
        ..s
    }
}

/// Writing one glyph byte: when the last row is full the grid first scrolls
/// (implicit wrap), then the byte is stored with the current attribute at
/// the cursor on the last row and the cursor advances by one.
pub open spec fn put_spec(s: VgaState, b: u8) -> VgaState {
    let t = if s.col >= BUFFER_WIDTH {
        scroll_spec(s)
    } else {
        s
    };
    VgaState {
        words: t.words.update(
            (BUFFER_HEIGHT - 1) * BUFFER_WIDTH + t.col,
            word_of(b, s.attr),
        ),
        col: t.col + 1,
        attr: s.attr,
    }
}

/// One step of the byte dispatch state machine: newline scrolls, tab
/// indents, and any other byte is stored as a glyph.
pub open spec fn step_spec(s: VgaState, b: u8) -> VgaState {
    if b == 0x0a {
        scroll_spec(s)
    } else if b == 0x09 {
        indent_spec(s)
    } else {
        put_spec(s, b)
    }
}

/// Whether a byte may be dispatched as-is: newline, tab, or printable ASCII.
pub open spec fn representable(b: u8) -> bool {
    b == 0x0a || b == 0x09 || (0x20 <= b <= 0x7e)
}

/// The byte actually dispatched for an incoming text byte: representable
/// bytes pass through, anything else becomes the placeholder glyph.
pub open spec fn norm_byte(b: u8) -> u8 {
    if representable(b) {
        b
    } else {
        PLACEHOLDER
    }
}

/// The normalized byte stream of a text.
pub open spec fn norm_bytes(bs: Seq<u8>) -> Seq<u8> {
    bs.map_values(|b: u8| norm_byte(b))
}

/// The byte dispatched for a single character: newline, tab and printable
/// ASCII pass through (their code fits one byte), any other character
/// becomes the placeholder glyph.
pub open spec fn norm_char(c: char) -> u8 {
    if c as u32 == 0x0a || c as u32 == 0x09 || (0x20 <= c as u32 <= 0x7e) {
        (c as u32) as u8
    } else {
        PLACEHOLDER
    }
}

/// A character byte the device may show in a cell: printable ASCII or the
/// placeholder glyph.
pub open spec fn displayable(ch: u8) -> bool {
    (0x20 <= ch <= 0x7e) || ch == PLACEHOLDER
}

/// Every cell of the grid holds a displayable character byte.
pub open spec fn grid_displayable(s: VgaState) -> bool {
    forall|j: int|
        0 <= j < s.words.len() ==> displayable(crate::grid::char_of_word(#[trigger] s.words[j]))
}

/// The state after dispatching a sequence of bytes in order.
pub open spec fn run_spec(s: VgaState, bs: Seq<u8>) -> VgaState
    decreases bs.len(),
{
    if bs.len() == 0 {
        s
    } else {
        run_spec(step_spec(s, bs.first()), bs.drop_first())
    }
}

/// Every dispatch step keeps the abstract state well formed.
pub proof fn lemma_step_wf(s: VgaState, b: u8)
    requires
        vga_wf(s),
    ensures
        vga_wf(step_spec(s, b)),
{
}

/// Running a byte sequence keeps the state well formed and the attribute
/// unchanged.
pub proof fn lemma_run_wf(s: VgaState, bs: Seq<u8>)
    requires
        vga_wf(s),
    ensures
        vga_wf(run_spec(s, bs)),
        run_spec(s, bs).attr == s.attr,
    decreases bs.len(),
{
    if bs.len() > 0 {
        lemma_step_wf(s, bs.first());
        lemma_run_wf(step_spec(s, bs.first()), bs.drop_first());
    }
}

/// Dispatching one more byte after a run is one more step on its result.
pub proof fn lemma_run_push(s: VgaState, bs: Seq<u8>, b: u8)
    ensures
        run_spec(s, bs.push(b)) == step_spec(run_spec(s, bs), b),
    decreases bs.len(),
{
    reveal_with_fuel(run_spec, 2);
    if bs.len() == 0 {
        assert(bs.push(b).first() == b);
        assert(bs.push(b).drop_first() =~= Seq::<u8>::empty());
        assert(run_spec(s, bs.push(b)) == run_spec(step_spec(s, b), Seq::<u8>::empty()));
    } else {
        assert(bs.push(b).first() == bs.first());
        assert(bs.push(b).drop_first() =~= bs.drop_first().push(b));
        lemma_run_push(step_spec(s, bs.first()), bs.drop_first(), b);
        assert(run_spec(s, bs.push(b)) == run_spec(
            step_spec(s, bs.first()),
            bs.drop_first().push(b),
        ));
        assert(run_spec(s, bs) == run_spec(step_spec(s, bs.first()), bs.drop_first()));
    }
}

/// Owns the cursor column and current attribute, and performs all mutations
/// of the character grid.
pub struct Writer {
    column_pos: usize,
    color_code: ColorCode,
    buffer: Buffer,
}

impl Writer {
    /// The abstract display state this writer maintains.
    pub closed spec fn abs(self) -> VgaState {
        VgaState {
            words: self.buffer.view(),
            col: self.column_pos as int,
            attr: self.color_code.0,
        }
    }

    /// The writer's invariant.
    pub open spec fn wf(self) -> bool {
        vga_wf(self.abs())
    }

    /// Binds a writer to a grid region, with the cursor at column 0 and the
    /// given starting attribute.
    pub fn new(buffer: Buffer, color_code: ColorCode) -> (w: Writer)
        requires
            buffer.wf(),
        ensures
            w.wf(),
            w.abs() == (VgaState { words: buffer.view(), col: 0, attr: color_code.0 }),
    {
        Writer { column_pos: 0, color_code, buffer }
    }

    /// The current cursor column.
    pub fn column_pos(&self) -> (c: usize)
        ensures
            c == self.abs().col,
    {
        self.column_pos
    }

    /// The current attribute.
    pub fn color_code(&self) -> (c: ColorCode)
        ensures
            c.0 == self.abs().attr,
    {
        self.color_code
    }

    /// Reads the cell at `(row, col)` of the grid.
    pub fn read_cell(&self, row: usize, col: usize) -> (sc: ScreenChar)
        requires
            self.wf(),
            row < BUFFER_HEIGHT,
            col < BUFFER_WIDTH,
        ensures
            sc == crate::grid::cell_of_word(self.abs().words[row * BUFFER_WIDTH + col]),
    {
        self.buffer.read(row, col)
    }

    /// Replaces the attribute used for subsequent writes and blank fills;
    /// cells already written keep theirs.
    pub fn set_color(&mut self, color_code: ColorCode)
        requires
            old(self).wf(),
        ensures
            final(self).wf(),
            final(self).abs() == (VgaState { attr: color_code.0, ..old(self).abs() }),
    {
        self.color_code = color_code;
    }

    /// Clears row `row` to blank cells in the current attribute.
    pub fn clear_row(&mut self, row: usize)
        requires
            old(self).wf(),
            row < BUFFER_HEIGHT,
        ensures
            final(self).wf(),
            final(self).abs().col == old(self).abs().col,
            final(self).abs().attr == old(self).abs().attr,
            forall|j: int|
                row * BUFFER_WIDTH <= j < row * BUFFER_WIDTH + BUFFER_WIDTH
                    ==> final(self).abs().words[j] == blank_word(old(self).abs().attr),
            forall|j: int|
                0 <= j < GRID_WORDS && !(row * BUFFER_WIDTH <= j < row * BUFFER_WIDTH
                    + BUFFER_WIDTH) ==> final(self).abs().words[j] == old(self).abs().words[j],
    {
        let blank = ScreenChar { ascii_char: 0x20, color_code: self.color_code };
        let mut col: usize = 0;
        while col < BUFFER_WIDTH
            invariant
                col <= BUFFER_WIDTH,
                row < BUFFER_HEIGHT,
                self.buffer.wf(),
                self.column_pos == old(self).column_pos,
                self.color_code == old(self).color_code,
                blank == (ScreenChar { ascii_char: 0x20, color_code: old(self).color_code }),
                forall|j: int|
                    row * BUFFER_WIDTH <= j < row * BUFFER_WIDTH + col
                        ==> self.buffer.view()[j] == blank_word(old(self).color_code.0),
                forall|j: int|
                    0 <= j < GRID_WORDS && !(row * BUFFER_WIDTH <= j < row * BUFFER_WIDTH
                        + col) ==> self.buffer.view()[j] == old(self).buffer.view()[j],
            decreases BUFFER_WIDTH - col,
        {
            self.buffer.write(row, col, blank);
            col += 1;
        }
    }

    /// Scroll-up: copies every cell of rows `[1, BUFFER_HEIGHT)` one row up,
    /// in left-to-right, top-to-bottom order, clears the last row to blanks
    /// in the current attribute, and resets the cursor to column 0.
    pub fn new_line(&mut self)
        requires
            old(self).wf(),
        ensures
            final(self).wf(),
            final(self).abs() == scroll_spec(old(self).abs()),
    {
        let mut i: usize = 0;
        while i < GRID_WORDS - BUFFER_WIDTH
            invariant
                i <= GRID_WORDS - BUFFER_WIDTH,
                self.buffer.wf(),
                self.column_pos == old(self).column_pos,
                self.color_code == old(self).color_code,
                forall|j: int|
                    0 <= j < i ==> self.buffer.view()[j] == old(self).buffer.view()[j
                        + BUFFER_WIDTH],
                forall|j: int|
                    i <= j < GRID_WORDS ==> self.buffer.view()[j] == old(self).buffer.view()[j],
            decreases GRID_WORDS - BUFFER_WIDTH - i,
        {
            let w = self.buffer.load(i + BUFFER_WIDTH);
            self.buffer.store(i, w);
            i += 1;
        }
        self.clear_row(BUFFER_HEIGHT - 1);
        self.column_pos = 0;
        proof {
            assert(self.abs().words =~= scroll_spec(old(self).abs()).words);
            assert(self.abs() =~= scroll_spec(old(self).abs()));
        }
    }

    /// Tab indentation: advances the cursor to the next tab stop, or clamps
    /// it to the last column near the right margin. Emits no glyph.
    pub fn indent(&mut self)
        requires
            old(self).wf(),
        ensures
            final(self).wf(),
            final(self).abs() == indent_spec(old(self).abs()),
    {
        if self.column_pos < BUFFER_WIDTH - INDENT_SIZE {
            self.column_pos = (self.column_pos / INDENT_SIZE + 1) * INDENT_SIZE;
        } else {
            self.column_pos = BUFFER_WIDTH - 1;
        }
        proof {
            assert(self.abs() =~= indent_spec(old(self).abs()));
        }
    }

    /// Byte dispatch: newline scrolls, tab indents, and any other byte is
    /// stored at the cursor on the last row with the current attribute,
    /// scrolling first when the row is already full.
    pub fn write_byte(&mut self, byte: u8)
        requires
            old(self).wf(),
        ensures
            final(self).wf(),
            final(self).abs() == step_spec(old(self).abs(), byte),
    {
        match byte {
            0x0a => self.new_line(),
            0x09 => self.indent(),
            byte => {
                if self.column_pos >= BUFFER_WIDTH {
                    self.new_line();
                }
                let row = BUFFER_HEIGHT - 1;
                let col = self.column_pos;
                self.buffer.write(
                    row,
                    col,
                    ScreenChar { ascii_char: byte, color_code: self.color_code },
                );
                self.column_pos = self.column_pos + 1;
                proof {
                    assert(self.abs().words =~= step_spec(old(self).abs(), byte).words);
                    assert(self.abs() =~= step_spec(old(self).abs(), byte));
                }
            },
        }
    }

    /// Consumes a byte sequence: newline, tab and printable ASCII bytes are
    /// dispatched as-is, every other byte as the placeholder glyph, so the
    /// grid never holds a non-representable glyph.
    pub fn write_bytes(&mut self, bytes: &[u8])
        requires
            old(self).wf(),
        ensures
            final(self).wf(),
            final(self).abs() == run_spec(old(self).abs(), norm_bytes(bytes@)),
    {
        let n = bytes.len();
        let mut i: usize = 0;
        proof {
            assert(norm_bytes(bytes@.take(0)) =~= Seq::<u8>::empty());
        }
        while i < n
            invariant
                i <= n,
                n == bytes@.len(),
                self.wf(),
                self.abs() == run_spec(old(self).abs(), norm_bytes(bytes@.take(i as int))),
            decreases n - i,
        {
            let b = bytes[i];
            let nb = if b == 0x0a || b == 0x09 || (0x20 <= b && b <= 0x7e) {
                b
            } else {
                PLACEHOLDER
            };
            let ghost prev = self.abs();
            self.write_byte(nb);
            proof {
                assert(nb == norm_byte(bytes@[i as int]));
                assert(norm_bytes(bytes@.take(i + 1)) =~= norm_bytes(bytes@.take(i as int)).push(
                    norm_byte(bytes@[i as int]),
                ));
                lemma_run_push(old(self).abs(), norm_bytes(bytes@.take(i as int)), nb);
            }
            i += 1;
        }
        proof {
            assert(bytes@.take(n as int) =~= bytes@);
        }
    }

    /// Dispatches a single character: newline, tab and printable ASCII go
    /// through as their one-byte code, any other character as the
    /// placeholder glyph, so the grid never holds a non-representable glyph.
    pub fn write_char(&mut self, c: char)
        requires
            old(self).wf(),
        ensures
            final(self).wf(),
            final(self).abs() == step_spec(old(self).abs(), norm_char(c)),
    {
        let code = c as u32;
        let b = if code == 0x0a || code == 0x09 || (0x20 <= code && code <= 0x7e) {
            code as u8
        } else {
            PLACEHOLDER
        };
        self.write_byte(b);
    }

    /// Consumes a text: its UTF-8 bytes are dispatched in order, each
    /// normalized to the representable set first.
    pub fn write_string(&mut self, s: &str)
        requires
            old(self).wf(),
        ensures
            final(self).wf(),
            final(self).abs() == run_spec(old(self).abs(), norm_bytes(s.spec_bytes())),
    {
        self.write_bytes(s.as_bytes());
    }
}

/// The state left by printing a text with a temporary attribute: the run
/// happens under `attr`, and the caller's own attribute is restored at the
/// end.
pub open spec fn highlighted_print_spec(s: VgaState, bytes: Seq<u8>, attr: u8) -> VgaState {
    VgaState { attr: s.attr, ..run_spec(VgaState { attr, ..s }, norm_bytes(bytes)) }
}

/// Plain formatted-print entry point: writes the already formatted text with
/// the writer's current attribute. The caller must hold the writer
/// exclusively for the whole call.
pub fn _print(writer: &mut Writer, s: &str)
    requires
        old(writer).wf(),
    ensures
        final(writer).wf(),
        final(writer).abs() == run_spec(old(writer).abs(), norm_bytes(s.spec_bytes())),
{
    writer.write_string(s);
}

/// Panic-highlighted print: writes the text in light red on black, then
/// restores the caller's attribute. The save, write and restore form one
/// continuous critical section: the caller holds the writer exclusively for
/// the whole call, so no other writer can interleave.
pub fn _print_panic(writer: &mut Writer, s: &str)
    requires
        old(writer).wf(),
    ensures
        final(writer).wf(),
        final(writer).abs() == highlighted_print_spec(
            old(writer).abs(),
            s.spec_bytes(),
            ColorCode::spec_new(Color::LightRed, Color::Black).0,
        ),
{
    let orig_color = writer.color_code();
    let panic_color = ColorCode::new(Color::LightRed, Color::Black);
    writer.set_color(panic_color);
    writer.write_string(s);
    writer.set_color(orig_color);
    proof {
        lemma_run_wf(
            VgaState { attr: panic_color.0, ..old(writer).abs() },
            norm_bytes(s.spec_bytes()),
        );
        assert(writer.abs() =~= highlighted_print_spec(
            old(writer).abs(),
            s.spec_bytes(),
            panic_color.0,
        ));
    }
}

/// Important-highlighted print: writes the text in white on black, then
/// restores the caller's attribute, all in one continuous critical section.
pub fn _print_important(writer: &mut Writer, s: &str)
    requires
        old(writer).wf(),
    ensures
        final(writer).wf(),
        final(writer).abs() == highlighted_print_spec(
            old(writer).abs(),
            s.spec_bytes(),
            ColorCode::spec_new(Color::White, Color::Black).0,
        ),
{
    let orig_color = writer.color_code();
    let highlight_color = ColorCode::new(Color::White, Color::Black);
    writer.set_color(highlight_color);
    writer.write_string(s);
    writer.set_color(orig_color);
    proof {
        lemma_run_wf(
            VgaState { attr: highlight_color.0, ..old(writer).abs() },
            norm_bytes(s.spec_bytes()),
        );
        assert(writer.abs() =~= highlighted_print_spec(
            old(writer).abs(),
            s.spec_bytes(),
            highlight_color.0,
        ));
    }
}

} // verus!
