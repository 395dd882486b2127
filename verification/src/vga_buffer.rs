//! The text screen: coloured characters in rows and columns, and a writer
//! that fills the bottom row.

use vstd::prelude::*;
use vstd::string::StringSliceAdditionalSpecFns;
use vstd::utf8::{encode_scalar, encode_utf8};

pub mod colored_letter;

verus! {

/// The sixteen colours of the text screen.
#[allow(dead_code)]
#[derive(Debug, Clone, Copy, PartialEq, Eq, Structural)]
pub enum Color {
    Black,
    Blue,
    Green,
    Cyan,
    Red,
    Magenta,
    Brown,
    LightGray,
    DarkGray,
    LightBlue,
    LightGreen,
    LightCyan,
    LightRed,
    Pink,
    Yellow,
    White,
}

impl Color {
    /// The number that the screen knows the colour by.
    pub open spec fn spec_code(self) -> u8 {
        match self {
            Color::Black => 0,
            Color::Blue => 1,
            Color::Green => 2,
            Color::Cyan => 3,
            Color::Red => 4,
            Color::Magenta => 5,
            Color::Brown => 6,
            Color::LightGray => 7,
            Color::DarkGray => 8,
            Color::LightBlue => 9,
            Color::LightGreen => 10,
            Color::LightCyan => 11,
            Color::LightRed => 12,
            Color::Pink => 13,
            Color::Yellow => 14,
            Color::White => 15,
        }
    }

    /// The number that the screen knows the colour by.
    #[verifier::when_used_as_spec(spec_code)]
    pub fn code(self) -> (r: u8)
        ensures
            r == self.spec_code(),
            r < 16,
    {
        match self {
            Color::Black => 0,
            Color::Blue => 1,
            Color::Green => 2,
            Color::Cyan => 3,
            Color::Red => 4,
            Color::Magenta => 5,
            Color::Brown => 6,
            Color::LightGray => 7,
            Color::DarkGray => 8,
            Color::LightBlue => 9,
            Color::LightGreen => 10,
            Color::LightCyan => 11,
            Color::LightRed => 12,
            Color::Pink => 13,
            Color::Yellow => 14,
            Color::White => 15,
        }
    }
}

/// A foreground and a background colour in one byte: the background in the
/// upper four bits, the foreground in the lower four.
#[derive(Debug, Clone, Copy, PartialEq, Eq, Structural)]
pub struct ColorCode(pub u8);

impl ColorCode {
    /// The byte for `foreground` on `background`.
    pub open spec fn spec_new(foreground: Color, background: Color) -> ColorCode {
        ColorCode((background.code() * 16 + foreground.code()) as u8)
    }

    /// The colour code for `foreground` on `background`.
    #[verifier::when_used_as_spec(spec_new)]
    pub fn new(foreground: Color, background: Color) -> (r: ColorCode)
        ensures
            r == ColorCode::spec_new(foreground, background),
    {
        let back = background.code();
        let fore = foreground.code();
        assert((back << 4 | fore) == back * 16 + fore) by (bit_vector)
            requires
                back < 16,
                fore < 16,
        ;
        ColorCode(back << 4 | fore)
    }
}

/// One cell of the screen: a character and its colours.
#[derive(Debug, Clone, Copy, PartialEq, Eq, Structural)]
pub struct ScreenChar {
    /// The character, as a byte of code page 437.
    pub ascii_character: u8,
    /// The colours that the character is shown in.
    pub color_code: ColorCode,
}

/// The number of rows of the screen.
pub const BUFFER_HEIGHT: usize = 25;

/// The number of columns of the screen.
pub const BUFFER_WIDTH: usize = 80;

/// The cells of the screen, row by row from the top.
pub struct Buffer {
    chars: [[ScreenChar; 80]; 25],
}

impl View for Buffer {
    type V = Seq<Seq<ScreenChar>>;

    closed spec fn view(&self) -> Seq<Seq<ScreenChar>> {
        Seq::new(25, |row: int| self.chars@[row]@)
    }
}

impl Buffer {
    /// A screen that shows `cell` everywhere.
    pub fn filled(cell: ScreenChar) -> (r: Buffer)
        ensures
            r@.len() == BUFFER_HEIGHT,
            forall|row: int| 0 <= row < BUFFER_HEIGHT ==> #[trigger] r@[row].len() == BUFFER_WIDTH,
            forall|row: int, col: int|
                0 <= row < BUFFER_HEIGHT && 0 <= col < BUFFER_WIDTH ==> #[trigger] r@[row][col]
                    == cell,
    {
        Buffer { chars: [[cell; 80]; 25] }
    }

    /// Puts `cell` into row `row` and column `col`.
    pub fn set(&mut self, row: usize, col: usize, cell: ScreenChar)
        requires
            row < BUFFER_HEIGHT,
            col < BUFFER_WIDTH,
        ensures
            final(self)@ == old(self)@.update(
                row as int,
                old(self)@[row as int].update(col as int, cell),
            ),
    {
        let mut line = self.chars[row];
        line[col] = cell;
        self.chars[row] = line;
        assert(self@ =~= old(self)@.update(
            row as int,
            old(self)@[row as int].update(col as int, cell),
        ));
    }

    /// The cell in row `row` and column `col`.
    pub fn get(&self, row: usize, col: usize) -> (r: ScreenChar)
        requires
            row < BUFFER_HEIGHT,
            col < BUFFER_WIDTH,
        ensures
            r == self@[row as int][col as int],
    {
        self.chars[row][col]
    }
}

/// A writer as plain values.
pub struct WriterState {
    /// The column that the next character goes to.
    pub column_position: int,
    /// The colours of the next character.
    pub color_code: ColorCode,
    /// The cells of the screen, row by row from the top.
    pub chars: Seq<Seq<ScreenChar>>,
}

impl WriterState {
    /// The screen has its rows and columns, and the column of the next
    /// character is on the screen or just past its right edge.
    pub open spec fn wf(self) -> bool {
        &&& 0 <= self.column_position <= BUFFER_WIDTH
        &&& self.chars.len() == BUFFER_HEIGHT
        &&& forall|row: int| 0 <= row < BUFFER_HEIGHT ==> #[trigger] self.chars[row].len() == BUFFER_WIDTH
    }

    /// Whether `byte` can be written: it is no line break, and the bottom
    /// row has a column left for it.
    pub open spec fn can_write(self, byte: u8) -> bool {
        byte != 10 && self.column_position < BUFFER_WIDTH
    }

    /// The writer after `byte` has been written: it stands in the bottom
    /// row, in the writer's colours, and the writer is one column on.
    pub open spec fn write_byte(self, byte: u8) -> WriterState {
        WriterState {
            column_position: self.column_position + 1,
            chars: self.chars.update(
                BUFFER_HEIGHT - 1,
                self.chars[BUFFER_HEIGHT - 1].update(
                    self.column_position,
                    ScreenChar { ascii_character: byte, color_code: self.color_code },
                ),
            ),
            ..self
        }
    }

    /// Whether the bytes of `bytes` can be written one after the other.
    pub open spec fn can_write_all(self, bytes: Seq<u8>) -> bool {
        &&& self.column_position + bytes.len() <= BUFFER_WIDTH
        &&& forall|i: int| 0 <= i < bytes.len() ==> bytes[i] != 10
    }

    /// The writer after the bytes of `bytes` have been written one after
    /// the other.
    pub open spec fn write_all(self, bytes: Seq<u8>) -> WriterState
        decreases bytes.len(),
    {
        if bytes.len() == 0 {
            self
        } else {
            self.write_all(bytes.drop_last()).write_byte(bytes.last())
        }
    }
}

/// The byte that the screen shows for `byte` of a string: the byte itself
/// where it is printable or a line break, and a filled square for any other.
pub open spec fn printable(byte: u8) -> u8 {
    if (0x20 <= byte <= 0x7e) || byte == 10 {
        byte
    } else {
        0xfe
    }
}

/// What the screen shows for the bytes of a string.
pub open spec fn shown(bytes: Seq<u8>) -> Seq<u8> {
    Seq::new(bytes.len(), |i: int| printable(bytes[i]))
}

/// Writes characters to the bottom row of the screen, from left to right.
pub struct Writer {
    column_position: usize,
    color_code: ColorCode,
    buffer: Buffer,
}

impl View for Writer {
    type V = WriterState;

    closed spec fn view(&self) -> WriterState {
        WriterState {
            column_position: self.column_position as int,
            color_code: self.color_code,
            chars: self.buffer@,
        }
    }
}

impl Writer {
    #[verifier::type_invariant]
    spec fn well_formed(self) -> bool {
        self@.wf()
    }

    /// A writer at the left edge of `buffer`, which writes in `color_code`.
    pub fn new(color_code: ColorCode, buffer: Buffer) -> (r: Writer)
        ensures
            r@ == (WriterState { column_position: 0, color_code, chars: buffer@ }),
            r@.wf(),
    {
        Writer { column_position: 0, color_code, buffer }
    }

    /// The column that the next character goes to.
    pub fn column_position(&self) -> (r: usize)
        ensures
            r == self@.column_position,
            self@.wf(),
    {
        proof {
            use_type_invariant(self);
        }
        self.column_position
    }

    /// The colours that the writer writes in.
    pub fn color_code(&self) -> (r: ColorCode)
        ensures
            r == self@.color_code,
    {
        self.color_code
    }

    /// Makes the writer write in `color_code` from now on.
    pub fn set_color_code(&mut self, color_code: ColorCode)
        ensures
            final(self)@ == (WriterState { color_code, ..old(self)@ }),
    {
        proof {
            use_type_invariant(&*self);
        }
        self.color_code = color_code;
    }

    /// The screen as the writer has left it.
    pub fn buffer(&self) -> (r: &Buffer)
        ensures
            r@ == self@.chars,
            self@.wf(),
    {
        proof {
            use_type_invariant(self);
        }
        &self.buffer
    }

    /// Whether `byte` can be written.
    pub fn can_write_byte(&self, byte: u8) -> (r: bool)
        ensures
            r == self@.can_write(byte),
    {
        byte != 0x0a && self.column_position < BUFFER_WIDTH
    }

    /// Whether `s` can be written.
    pub fn can_write_string(&self, s: &str) -> (r: bool)
        ensures
            r == self@.can_write_all(shown(s.spec_bytes())),
    {
        proof {
            use_type_invariant(self);
        }
        let bytes = s.as_bytes();
        if bytes.len() > BUFFER_WIDTH - self.column_position {
            return false;
        }
        let ghost cells = shown(s.spec_bytes());
        let mut index: usize = 0;
        while index < bytes.len()
            invariant
                index <= bytes@.len(),
                bytes@ == s.spec_bytes(),
                cells == shown(s.spec_bytes()),
                forall|i: int| 0 <= i < index ==> cells[i] != 10,
            decreases bytes@.len() - index,
        {
            if bytes[index] == 0x0a {
                assert(cells[index as int] == 10);
                return false;
            }
            index += 1;
        }
        true
    }

    /// Writes the bytes of `s`. A byte that is not printable is shown as a
    /// filled square.
    ///
    /// The writer cannot break a line: `s` holds no line break and fits in
    /// what is left of the bottom row.
    pub fn write_string(&mut self, s: &str)
        requires
            old(self)@.can_write_all(shown(s.spec_bytes())),
        ensures
            final(self)@ == old(self)@.write_all(shown(s.spec_bytes())),
    {
        proof {
            use_type_invariant(&*self);
        }
        let bytes = s.as_bytes();
        let ghost cells = shown(s.spec_bytes());
        let mut index: usize = 0;
        while index < bytes.len()
            invariant
                index <= bytes@.len(),
                bytes@ == s.spec_bytes(),
                cells == shown(s.spec_bytes()),
                old(self)@.can_write_all(cells),
                self@ == old(self)@.write_all(cells.take(index as int)),
                self@.column_position == old(self)@.column_position + index,
            decreases bytes@.len() - index,
        {
            let byte = bytes[index];
            assert(cells.take(index + 1).drop_last() =~= cells.take(index as int));
            assert(cells[index as int] == printable(byte));
            match byte {
                // a printable ASCII byte, or the line break 0x0a
                0x20..=0x7e | 0x0a => self.write_byte(byte),
                // any other byte
                _ => self.write_byte(0xfe),
            }
            index += 1;
        }
        assert(cells.take(index as int) =~= cells);
    }

    /// Writes `byte` into the next column of the bottom row.
    ///
    /// The writer cannot break a line: `byte` is no line break, and the
    /// bottom row is not full.
    pub fn write_byte(&mut self, byte: u8)
        requires
            old(self)@.can_write(byte),
        ensures
            final(self)@ == old(self)@.write_byte(byte),
            final(self)@.wf(),
    {
        proof {
            use_type_invariant(&*self);
        }
        let row = BUFFER_HEIGHT - 1;
        let col = self.column_position;

        let color_code = self.color_code;

        let mut line = self.buffer.chars[row];
        line[col] = ScreenChar { ascii_character: byte, color_code };
        let mut chars = self.buffer.chars;
        chars[row] = line;
        assert(Seq::new(25, |row: int| chars@[row]@) =~= old(self)@.write_byte(byte).chars);
        *self = Writer {
            column_position: self.column_position + 1,
            color_code,
            buffer: Buffer { chars },
        };
    }
}

/// The writer that `print_something` starts with: at the left edge of
/// `chars`, writing yellow on black.
pub open spec fn fresh_writer(chars: Seq<Seq<ScreenChar>>) -> WriterState {
    WriterState {
        column_position: 0,
        color_code: ColorCode::new(Color::Yellow, Color::Black),
        chars,
    }
}

/// Writes a greeting to the bottom row of `buffer`, in yellow on black:
/// an `H`, then `ello! `, then `World!` with dots on its `o`, a letter that
/// cannot be printed and shows as two filled squares.
pub fn print_something(buffer: Buffer) -> (r: Writer)
    ensures
        r@ == fresh_writer(buffer@).write_byte(72).write_all(shown("ello! ".spec_bytes())).write_all(
            shown("W\u{f6}rld!".spec_bytes()),
        ),
        r@.column_position == 14,
{
    let mut writer = Writer::new(ColorCode::new(Color::Yellow, Color::Black), buffer);
    proof {
        lemma_greeting_bytes();
    }
    writer.write_byte(0x48);
    assert(writer@.column_position == 1);
    writer.write_string("ello! ");
    proof {
        lemma_write_all_moves_on(fresh_writer(buffer@).write_byte(72), shown("ello! ".spec_bytes()));
    }
    writer.write_string("W\u{f6}rld!");
    proof {
        lemma_write_all_moves_on(
            fresh_writer(buffer@).write_byte(72).write_all(shown("ello! ".spec_bytes())),
            shown("W\u{f6}rld!".spec_bytes()),
        );
    }
    writer
}

/// Writing bytes moves the writer on by as many columns.
pub proof fn lemma_write_all_moves_on(writer: WriterState, bytes: Seq<u8>)
    ensures
        writer.write_all(bytes).column_position == writer.column_position + bytes.len(),
        writer.write_all(bytes).color_code == writer.color_code,
    decreases bytes.len(),
{
    if bytes.len() > 0 {
        lemma_write_all_moves_on(writer, bytes.drop_last());
    }
}

/// The greeting's two strings have six and seven bytes, and no line break
/// among them.
proof fn lemma_greeting_bytes()
    ensures
        shown("ello! ".spec_bytes()).len() == 6,
        shown("W\u{f6}rld!".spec_bytes()).len() == 7,
        forall|i: int| 0 <= i < 6 ==> shown("ello! ".spec_bytes())[i] != 10,
        forall|i: int| 0 <= i < 7 ==> shown("W\u{f6}rld!".spec_bytes())[i] != 10,
{
    reveal_strlit("ello! ");
    reveal_strlit("W\u{f6}rld!");
    let first = "ello! "@;
    let second = "W\u{f6}rld!"@;
    lemma_encoded_without_line_break(first);
    lemma_encoded_without_line_break(second);
    reveal_with_fuel(encoded_len, 8);
    assert(encoded_len(first) == 6);
    assert(encoded_len(second) == 7);
}

/// The number of bytes that the characters of `chars` take in UTF-8.
spec fn encoded_len(chars: Seq<char>) -> int
    decreases chars.len(),
{
    if chars.len() == 0 {
        0
    } else {
        (if chars[0] as u32 <= 0x7f {
            1int
        } else if chars[0] as u32 <= 0x7ff {
            2int
        } else if chars[0] as u32 <= 0xffff {
            3int
        } else {
            4int
        }) + encoded_len(chars.drop_first())
    }
}

/// Text without a line break has none among its bytes either, and takes as
/// many bytes as its characters need.
proof fn lemma_encoded_without_line_break(chars: Seq<char>)
    requires
        forall|i: int| 0 <= i < chars.len() ==> chars[i] != '\n',
    ensures
        encode_utf8(chars).len() == encoded_len(chars),
        forall|i: int| 0 <= i < encode_utf8(chars).len() ==> encode_utf8(chars)[i] != 10,
    decreases chars.len(),
{
    if chars.len() > 0 {
        let scalar = chars[0] as u32;
        let head = encode_scalar(scalar);
        vstd::utf8::char_is_scalar(chars[0]);
        assert(scalar != 10) by {
            vstd::utf8::char_u32_cast(chars[0], scalar);
            vstd::utf8::char_u32_cast('\n', 10u32);
        }
        assert(scalar <= 0x7f ==> (scalar & 0x7f) as u8 != 10) by (bit_vector)
            requires
                scalar != 10,
        ;
        assert((0xc0u8 | ((scalar >> 6) & 0x1f) as u8) != 10 && (0xe0u8 | ((scalar >> 12)
            & 0x0f) as u8) != 10 && (0xf0u8 | ((scalar >> 18) & 0x7) as u8) != 10 && (0x80u8 | (
        scalar & 0x3f) as u8) != 10 && (0x80u8 | ((scalar >> 6) & 0x3f) as u8) != 10 && (0x80u8
            | ((scalar >> 12) & 0x3f) as u8) != 10) by (bit_vector);
        assert forall|i: int| 0 <= i < head.len() implies head[i] != 10 by {}
        let rest = chars.drop_first();
        lemma_encoded_without_line_break(rest);
        assert(encode_utf8(chars) == head + encode_utf8(rest));
    }
}

} // verus!
