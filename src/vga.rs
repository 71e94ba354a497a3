use vstd::prelude::*;
use vstd::string::StringSliceAdditionalSpecFns;

verus! {

/// The height of the screen (number of rows).
pub const BUFFER_HEIGHT: usize = 25;
/// The width of the screen (number of columns).
pub const BUFFER_WIDTH: usize = 80;
/// The number of cells of the screen.
pub const BUFFER_SIZE: usize = 2000;
/// The index of the first cell of the bottom row.
pub const LAST_ROW_START: usize = 1920;
/// The glyph shown in place of a byte that cannot be rendered.
pub const INVALID_BYTE_CHAR: u8 = 0xfe;
/// The first printable character.
pub const CHAR_VALID_RANGE_START: u8 = 0x20;
/// The last printable character.
pub const CHAR_VALID_RANGE_END: u8 = 0x7e;
/// The new line character.
pub const CHAR_NEW_LINE: u8 = 0x0a;

/// All available colours.
#[derive(Debug, Clone, Copy, PartialEq, Eq, Structural)]
pub enum Color {
    Black,
    Blue,
    Green,
    Cyan,
    Red,
    Magenta,
    Brown,
    LightGray,
    DarkGray,
    LightBlue,
    LightGreen,
    LightCyan,
    LightRed,
    Pink,
    Yellow,
    White,
}

/// The 4-bit hardware code of a colour.
pub open spec fn color_code_of(c: Color) -> u8 {
    match c {
        Color::Black => 0,
        Color::Blue => 1,
        Color::Green => 2,
        Color::Cyan => 3,
        Color::Red => 4,
        Color::Magenta => 5,
        Color::Brown => 6,
        Color::LightGray => 7,
        Color::DarkGray => 8,
        Color::LightBlue => 9,
        Color::LightGreen => 10,
        Color::LightCyan => 11,
        Color::LightRed => 12,
        Color::Pink => 13,
        Color::Yellow => 14,
        Color::White => 15,
    }
}

impl Color {
    /// The 4-bit hardware code of this colour.
    pub fn code(self) -> (r: u8)
        ensures
            r == color_code_of(self),
            r < 16,
    {
        match self {
            Color::Black => 0,
            Color::Blue => 1,
            Color::Green => 2,
            Color::Cyan => 3,
            Color::Red => 4,
            Color::Magenta => 5,
            Color::Brown => 6,
            Color::LightGray => 7,
            Color::DarkGray => 8,
            Color::LightBlue => 9,
            Color::LightGreen => 10,
            Color::LightCyan => 11,
            Color::LightRed => 12,
            Color::Pink => 13,
            Color::Yellow => 14,
            Color::White => 15,
        }
    }
}

/// An attribute byte: background in the high nibble, foreground in the low one.
#[derive(Debug, Clone, Copy, PartialEq, Eq, Structural)]
pub struct ColorCode(u8);

impl ColorCode {
    pub closed spec fn byte(self) -> u8 {
        self.0
    }

    /// Packs a foreground and a background colour.
    pub fn new(foreground: Color, background: Color) -> (r: ColorCode)
        ensures
            r.byte() == color_code_of(background) * 16 + color_code_of(foreground),
            r.byte() / 16 == color_code_of(background),
            r.byte() % 16 == color_code_of(foreground),
    {
        let f = foreground.code();
        let b = background.code();
        ColorCode(b * 16 + f)
    }

    /// The attribute byte.
    pub fn value(self) -> (r: u8)
        ensures
            r == self.byte(),
    {
        self.0
    }
}

/// One cell of the screen: a glyph and its attribute.
#[derive(Debug, Clone, Copy, PartialEq, Eq, Structural)]
pub struct ScreenChar {
    pub ascii_character: u8,
    pub color_code: ColorCode,
}

impl ScreenChar {
    /// A cell holding the given glyph and attribute.
    pub fn new(ascii_character: u8, color_code: ColorCode) -> (r: ScreenChar)
        ensures
            r.ascii_character == ascii_character,
            r.color_code == color_code,
    {
        ScreenChar { ascii_character, color_code }
    }
}

/// The glyph that `write_string` forwards for the byte `b`.
pub open spec fn sanitize(b: u8) -> u8 {
    if (0x20 <= b && b <= 0x7e) || b == 0x0a {
        b
    } else {
        0xfe
    }
}

/// The cells after one scroll: every row moves up one, the bottom row is blank.
pub open spec fn scrolled(cells: Seq<ScreenChar>, blank: ScreenChar) -> Seq<ScreenChar> {
    Seq::new(2000, |i: int| if i < 1920 { cells[i + 80] } else { blank })
}

/// A blank cell in the given colour.
pub open spec fn blank_of(color: ColorCode) -> ScreenChar {
    ScreenChar { ascii_character: 0x20, color_code: color }
}

/// The cells and column after writing the byte `b` at column `col`.
pub open spec fn step(cells: Seq<ScreenChar>, col: int, color: ColorCode, b: u8) -> (Seq<ScreenChar>, int) {
    if b == 0x0a {
        (scrolled(cells, blank_of(color)), 0)
    } else {
        let pre = if col >= 80 { scrolled(cells, blank_of(color)) } else { cells };
        let c = if col >= 80 { 0 } else { col };
        (pre.update(1920 + c, ScreenChar { ascii_character: b, color_code: color }), c + 1)
    }
}

/// The cells and column after writing the bytes `bs` in turn.
pub open spec fn run(cells: Seq<ScreenChar>, col: int, color: ColorCode, bs: Seq<u8>) -> (Seq<ScreenChar>, int)
    decreases bs.len(),
{
    if bs.len() == 0 {
        (cells, col)
    } else {
        let prev = run(cells, col, color, bs.drop_last());
        step(prev.0, prev.1, color, bs.last())
    }
}

/// The number of scrolls that writing the bytes `bs` at column `col` makes.
pub open spec fn scrolls(col: int, bs: Seq<u8>) -> nat
    decreases bs.len(),
{
    if bs.len() == 0 {
        0
    } else {
        let prev_col = run_col(col, bs.drop_last());
        scrolls(col, bs.drop_last()) + if bs.last() == 0x0a || prev_col >= 80 { 1nat } else { 0nat }
    }
}

/// The column after writing the bytes `bs` at column `col`.
pub open spec fn run_col(col: int, bs: Seq<u8>) -> int
    decreases bs.len(),
{
    if bs.len() == 0 {
        col
    } else {
        let prev = run_col(col, bs.drop_last());
        if bs.last() == 0x0a {
            0
        } else if prev >= 80 {
            1
        } else {
            prev + 1
        }
    }
}


/// Every byte is rendered as itself when printable or a new line, and as the
/// placeholder glyph otherwise.
pub proof fn lemma_sanitize_renders(b: u8)
    ensures
        sanitize(b) == b || sanitize(b) == 0xfe,
        sanitize(b) == b <==> ((0x20 <= b && b <= 0x7e) || b == 0x0a || b == 0xfe),
{
}

/// A scroll moves the cell at `(r, c)` to `(r - 1, c)` for every row below the
/// top, and leaves the bottom row blank in the writer's colour.
pub proof fn lemma_scroll_moves_rows(cells: Seq<ScreenChar>, color: ColorCode)
    requires
        cells.len() == 2000,
    ensures
        scrolled(cells, blank_of(color)).len() == 2000,
        forall|r: int, c: int|
            1 <= r < 25 && 0 <= c < 80 ==> #[trigger] scrolled(cells, blank_of(color))[(r - 1) * 80 + c]
                == cells[r * 80 + c],
        forall|c: int| 0 <= c < 80 ==> #[trigger] scrolled(cells, blank_of(color))[1920 + c] == blank_of(color),
{
    assert forall|r: int, c: int| 1 <= r < 25 && 0 <= c < 80 implies #[trigger] scrolled(cells, blank_of(color))[(r - 1) * 80 + c]
        == cells[r * 80 + c] by {
        assert((r - 1) * 80 + c < 1920) by (nonlinear_arith)
            requires 1 <= r < 25, 0 <= c < 80;
        assert((r - 1) * 80 + c >= 0) by (nonlinear_arith)
            requires 1 <= r < 25, 0 <= c < 80;
        assert((r - 1) * 80 + c + 80 == r * 80 + c) by (nonlinear_arith);
    }
}

/// A new line writes no glyph of its own: it scrolls once and puts the column
/// back to zero, whatever the column was.
pub proof fn lemma_newline_scrolls(cells: Seq<ScreenChar>, col: int, color: ColorCode)
    ensures
        step(cells, col, color, 0x0a) == (scrolled(cells, blank_of(color)), 0int),
        scrolls(col, seq![0x0au8]) == 1,
{
    let bs = seq![0x0au8];
    assert(bs.drop_last() =~= Seq::<u8>::empty());
    assert(scrolls(col, bs.drop_last()) == 0);
    assert(bs.last() == 0x0a);
}

/// Writing `k <= 80` bytes that are not new lines from column zero moves the
/// column to `k` without a scroll.
pub proof fn lemma_printable_prefix(bs: Seq<u8>)
    requires
        bs.len() <= 80,
        forall|i: int| 0 <= i < bs.len() ==> bs[i] != 0x0a,
    ensures
        run_col(0, bs) == bs.len(),
        scrolls(0, bs) == 0,
    decreases bs.len(),
{
    if bs.len() > 0 {
        lemma_printable_prefix(bs.drop_last());
    }
}

/// Writing `BUFFER_WIDTH + 1` bytes that are not new lines from column zero
/// scrolls exactly once and leaves the last one at column zero of the bottom row.
pub proof fn lemma_wrap_scrolls_once(cells: Seq<ScreenChar>, color: ColorCode, bs: Seq<u8>)
    requires
        cells.len() == 2000,
        bs.len() == 81,
        forall|i: int| 0 <= i < bs.len() ==> bs[i] != 0x0a,
    ensures
        scrolls(0, bs) == 1,
        run_col(0, bs) == 1,
        run(cells, 0, color, bs).1 == 1,
        run(cells, 0, color, bs).0[1920] == (ScreenChar { ascii_character: bs[80], color_code: color }),
{
    lemma_printable_prefix(bs.drop_last());
    lemma_run_col_agrees(cells, 0, color, bs.drop_last());
}

/// The column that `run` reaches is the one that `run_col` gives.
pub proof fn lemma_run_col_agrees(cells: Seq<ScreenChar>, col: int, color: ColorCode, bs: Seq<u8>)
    ensures
        run(cells, col, color, bs).1 == run_col(col, bs),
    decreases bs.len(),
{
    if bs.len() > 0 {
        lemma_run_col_agrees(cells, col, color, bs.drop_last());
    }
}

/// Writing `a` and then `b` leaves the screen as writing `a + b` in one go:
/// a sequence written whole, under one exclusive borrow of the writer, is
/// never interleaved with another.
pub proof fn lemma_run_concat(cells: Seq<ScreenChar>, col: int, color: ColorCode, a: Seq<u8>, b: Seq<u8>)
    ensures
        run(cells, col, color, a + b) == run(run(cells, col, color, a).0, run(cells, col, color, a).1, color, b),
    decreases b.len(),
{
    if b.len() == 0 {
        assert(a + b =~= a);
    } else {
        assert((a + b).drop_last() =~= a + b.drop_last());
        assert((a + b).last() == b.last());
        lemma_run_concat(cells, col, color, a, b.drop_last());
    }
}

/// A console that writes on the bottom row of the screen and scrolls up.
pub struct Writer {
    column_position: usize,
    color_code: ColorCode,
    buffer: Vec<ScreenChar>,
}

impl Writer {
    pub closed spec fn column(&self) -> int {
        self.column_position as int
    }

    pub closed spec fn color(&self) -> ColorCode {
        self.color_code
    }

    pub closed spec fn cells(&self) -> Seq<ScreenChar> {
        self.buffer@
    }

    /// The column is on the screen and the grid has its full size.
    pub open spec fn wf(&self) -> bool {
        &&& 0 <= self.column() <= 80
        &&& self.cells().len() == 2000
    }

    /// A writer over a screen whose cells are all blank in the given colour.
    pub fn initialize(color_code: ColorCode) -> (r: Writer)
        ensures
            r.wf(),
            r.column() == 0,
            r.color() == color_code,
            r.cells() == Seq::new(2000, |i: int| blank_of(color_code)),
    {
        let blank = ScreenChar::new(0x20, color_code);
        let mut buffer: Vec<ScreenChar> = Vec::new();
        let mut i: usize = 0;
        while i < BUFFER_SIZE
            invariant
                i <= 2000,
                buffer@.len() == i,
                forall|j: int| 0 <= j < i ==> buffer@[j] == blank,
            decreases 2000 - i,
        {
            buffer.push(blank);
            i = i + 1;
        }
        assert(buffer@ =~= Seq::new(2000, |i: int| blank_of(color_code)));
        Writer { column_position: 0, color_code, buffer }
    }

    /// The current column.
    pub fn column_position(&self) -> (r: usize)
        ensures
            r == self.column(),
    {
        self.column_position
    }

    /// The current attribute.
    pub fn color_code(&self) -> (r: ColorCode)
        ensures
            r == self.color(),
    {
        self.color_code
    }

    /// The cell at the given row and column.
    pub fn cell(&self, row: usize, col: usize) -> (r: ScreenChar)
        requires
            self.wf(),
            row < 25,
            col < 80,
        ensures
            r == self.cells()[row * 80 + col],
    {
        self.buffer[row * BUFFER_WIDTH + col]
    }

    /// Writes the bytes of `s`, each sanitized, in turn.
    pub fn write_string(&mut self, s: &str)
        requires
            old(self).wf(),
        ensures
            final(self).wf(),
            final(self).color() == old(self).color(),
            (final(self).cells(), final(self).column()) == run(
                old(self).cells(),
                old(self).column(),
                old(self).color(),
                s.spec_bytes().map_values(|b: u8| sanitize(b)),
            ),
    {
        let bytes: &[u8] = s.as_bytes();
        let ghost sanitized = bytes@.map_values(|b: u8| sanitize(b));
        let mut i: usize = 0;
        while i < bytes.len()
            invariant
                i <= bytes@.len(),
                bytes@ == s.spec_bytes(),
                sanitized == bytes@.map_values(|b: u8| sanitize(b)),
                self.wf(),
                self.color() == old(self).color(),
                (self.cells(), self.column()) == run(
                    old(self).cells(),
                    old(self).column(),
                    old(self).color(),
                    sanitized.take(i as int),
                ),
            decreases bytes@.len() - i,
        {
            let byte = bytes[i];
            let glyph = if (CHAR_VALID_RANGE_START <= byte && byte <= CHAR_VALID_RANGE_END)
                || byte == CHAR_NEW_LINE {
                byte
            } else {
                INVALID_BYTE_CHAR
            };
            proof {
                assert(sanitized.take(i + 1).drop_last() =~= sanitized.take(i as int));
            }
            self.write_byte(glyph);
            i = i + 1;
        }
        proof {
            assert(sanitized.take(i as int) =~= sanitized);
        }
    }

    /// Writes one byte at the cursor; a new line scrolls.
    pub fn write_byte(&mut self, byte: u8)
        requires
            old(self).wf(),
        ensures
            final(self).wf(),
            final(self).color() == old(self).color(),
            (final(self).cells(), final(self).column()) == step(
                old(self).cells(),
                old(self).column(),
                old(self).color(),
                byte,
            ),
    {
        if byte == CHAR_NEW_LINE {
            self.new_line();
        } else {
            if self.column_position >= BUFFER_WIDTH {
                self.new_line();
            }
            let col = self.column_position;
            let cell = ScreenChar::new(byte, self.color_code);
            self.buffer.set(LAST_ROW_START + col, cell);
            self.column_position = col + 1;
        }
    }

    /// Moves every row up one and clears the bottom row.
    fn new_line(&mut self)
        requires
            old(self).wf(),
        ensures
            final(self).wf(),
            final(self).color() == old(self).color(),
            final(self).column() == 0,
            final(self).cells() == scrolled(old(self).cells(), blank_of(old(self).color())),
    {
        let mut i: usize = 0;
        while i < LAST_ROW_START
            invariant
                i <= 1920,
                self.color_code == old(self).color_code,
                self.wf(),
                old(self).buffer@.len() == 2000,
                forall|j: int| 0 <= j < i ==> self.buffer@[j] == old(self).buffer@[j + 80],
                forall|j: int| i <= j < 2000 ==> self.buffer@[j] == old(self).buffer@[j],
            decreases 1920 - i,
        {
            let c = self.buffer[i + BUFFER_WIDTH];
            self.buffer.set(i, c);
            i = i + 1;
        }
        self.clear_row(BUFFER_HEIGHT - 1);
        self.column_position = 0;
        assert(self.buffer@ =~= scrolled(old(self).buffer@, blank_of(self.color_code)));
    }

    /// Fills the given row with blanks in the current colour.
    fn clear_row(&mut self, row: usize)
        requires
            old(self).wf(),
            row < 25,
        ensures
            final(self).column_position == old(self).column_position,
            final(self).color_code == old(self).color_code,
            final(self).buffer@.len() == 2000,
            forall|j: int|
                0 <= j < 2000 ==> final(self).buffer@[j] == if row * 80 <= j < row * 80 + 80 {
                    blank_of(old(self).color_code)
                } else {
                    old(self).buffer@[j]
                },
    {
        let blank = ScreenChar::new(0x20, self.color_code);
        let start = row * BUFFER_WIDTH;
        let mut col: usize = 0;
        while col < BUFFER_WIDTH
            invariant
                col <= 80,
                start == row * 80,
                row < 25,
                self.column_position == old(self).column_position,
                self.color_code == old(self).color_code,
                blank == blank_of(self.color_code),
                self.buffer@.len() == 2000,
                forall|j: int|
                    0 <= j < 2000 ==> self.buffer@[j] == if start <= j < start + col {
                        blank
                    } else {
                        old(self).buffer@[j]
                    },
            decreases 80 - col,
        {
            self.buffer.set(start + col, blank);
            col = col + 1;
        }
    }
}

} // verus!
