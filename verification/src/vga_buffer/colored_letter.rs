//! Text in which every letter has colours of its own.

use super::{Color, ColorCode, Writer, WriterState, BUFFER_WIDTH};
use vstd::prelude::*;

verus! {

/// A character with its colours.
#[derive(Debug, Clone, Copy, PartialEq, Eq, Structural)]
pub struct ColoredLetter {
    /// The character.
    pub ascii_character: char,
    /// The colours that the character is shown in.
    pub color_code: ColorCode,
}

impl ColoredLetter {
    /// The letter `ascii_character` in the colours `color_code`.
    pub open spec fn spec_new(ascii_character: char, color_code: ColorCode) -> Self {
        ColoredLetter { ascii_character, color_code }
    }

    /// The letter `ascii_character` in the colours `color_code`.
    #[verifier::when_used_as_spec(spec_new)]
    pub fn new(ascii_character: char, color_code: ColorCode) -> (r: Self)
        ensures
            r == (ColoredLetter { ascii_character, color_code }),
    {
        Self { ascii_character, color_code }
    }

    /// The byte that the screen gets for the letter: the lowest eight
    /// bits of its character.
    pub open spec fn spec_byte(self) -> u8 {
        (self.ascii_character as u32 % 256) as u8
    }

    /// The byte that the screen gets for the letter.
    #[verifier::when_used_as_spec(spec_byte)]
    pub fn byte(self) -> (r: u8)
        ensures
            r == self.spec_byte(),
    {
        let code = self.ascii_character as u32;
        (code % 256) as u8
    }
}

/// The characters of `text`, each in the colours `color_code`.
pub open spec fn colored(text: Seq<char>, color_code: ColorCode) -> Seq<ColoredLetter> {
    Seq::new(text.len(), |i: int| ColoredLetter::new(text[i], color_code))
}

/// A run of coloured letters.
#[derive(Debug, Clone, PartialEq, Eq)]
pub struct ColoredString(Vec<ColoredLetter>);

impl View for ColoredString {
    type V = Seq<ColoredLetter>;

    closed spec fn view(&self) -> Seq<ColoredLetter> {
        self.0@
    }
}

impl ColoredString {
    /// The string without letters.
    pub fn new() -> (r: Self)
        ensures
            r@ == Seq::<ColoredLetter>::empty(),
    {
        Self(Vec::new())
    }

    /// The characters of `s`, each in the colours `color_code`.
    pub fn from(s: &str, color_code: ColorCode) -> (r: Self)
        ensures
            r@ == colored(s@, color_code),
    {
        broadcast use vstd::string::group_string_axioms;

        let mut colored_string = Self::new();
        for c in chars: s.chars()
            invariant
                chars.seq() == s@,
                colored_string@ == colored(s@.take(chars.index() as int), color_code),
        {
            assert(c == s@[chars.index() as int]);
            assert(s@.take(chars.index() + 1).drop_last() =~= s@.take(chars.index() as int));
            colored_string.0.push(ColoredLetter::new(c, color_code));
            assert(colored_string@ =~= colored(s@.take(chars.index() + 1), color_code));
        }
        assert(s@.take(s@.len() as int) =~= s@);
        colored_string
    }

    /// Puts the characters of `s`, each in the colours `color_code`, at
    /// the end of the string.
    pub fn push(&mut self, s: &str, color_code: ColorCode)
        ensures
            final(self)@ == old(self)@ + colored(s@, color_code),
    {
        let new_colored_string = Self::from(s, color_code);
        let mut index: usize = 0;
        while index < new_colored_string.0.len()
            invariant
                index <= new_colored_string@.len(),
                new_colored_string@ == colored(s@, color_code),
                self@ == old(self)@ + new_colored_string@.take(index as int),
            decreases new_colored_string@.len() - index,
        {
            self.0.push(new_colored_string.0[index]);
            index += 1;
            assert(self@ =~= old(self)@ + new_colored_string@.take(index as int));
        }
        assert(new_colored_string@.take(index as int) =~= new_colored_string@);
    }

    /// The number of letters.
    pub fn len(&self) -> (r: usize)
        ensures
            r == self@.len(),
    {
        self.0.len()
    }

    /// The letter at place `index`.
    pub fn get(&self, index: usize) -> (r: ColoredLetter)
        requires
            index < self@.len(),
        ensures
            r == self@[index as int],
    {
        self.0[index]
    }
}

/// The bytes that the screen gets for `letters`.
pub open spec fn screen_bytes(letters: Seq<ColoredLetter>) -> Seq<u8> {
    Seq::new(letters.len(), |i: int| letters[i].byte())
}

/// The writer after it has written `letters`, each in its own colours.
pub open spec fn print_letters(writer: WriterState, letters: Seq<ColoredLetter>) -> WriterState
    decreases letters.len(),
{
    if letters.len() == 0 {
        writer
    } else {
        let before = print_letters(writer, letters.drop_last());
        (WriterState { color_code: letters.last().color_code, ..before }).write_byte(
            letters.last().byte(),
        )
    }
}

/// Whether `writer` can write `colored_string`.
pub fn can_color_print(writer: &Writer, colored_string: &ColoredString) -> (r: bool)
    ensures
        r == writer@.can_write_all(screen_bytes(colored_string@)),
{
    let column = writer.column_position();
    if colored_string.len() > BUFFER_WIDTH - column {
        return false;
    }
    let ghost bytes = screen_bytes(colored_string@);
    let mut index: usize = 0;
    while index < colored_string.len()
        invariant
            index <= colored_string@.len(),
            bytes == screen_bytes(colored_string@),
            forall|i: int| 0 <= i < index ==> bytes[i] != 10,
        decreases colored_string@.len() - index,
    {
        if colored_string.get(index).byte() == 0x0a {
            assert(bytes[index as int] == 10);
            return false;
        }
        index += 1;
    }
    true
}

/// Writes `colored_string` with `writer`, each letter in its own colours,
/// and leaves the writer writing yellow on black.
///
/// The writer cannot break a line: the string holds no letter whose byte
/// is a line break, and fits in what is left of the bottom row.
pub fn color_print(writer: &mut Writer, colored_string: ColoredString)
    requires
        old(writer)@.can_write_all(screen_bytes(colored_string@)),
    ensures
        final(writer)@ == (WriterState {
            color_code: ColorCode::new(Color::Yellow, Color::Black),
            ..print_letters(old(writer)@, colored_string@)
        }),
{
    let ghost bytes = screen_bytes(colored_string@);
    let mut index: usize = 0;
    while index < colored_string.len()
        invariant
            index <= colored_string@.len(),
            bytes == screen_bytes(colored_string@),
            old(writer)@.can_write_all(bytes),
            writer@ == print_letters(old(writer)@, colored_string@.take(index as int)),
            writer@.column_position == old(writer)@.column_position + index,
        decreases colored_string@.len() - index,
    {
        let s = colored_string.get(index);
        assert(colored_string@.take(index + 1).drop_last() =~= colored_string@.take(index as int));
        assert(bytes[index as int] == s.byte());
        writer.set_color_code(s.color_code);
        writer.write_byte(s.byte());
        index += 1;
    }
    assert(colored_string@.take(index as int) =~= colored_string@);
    // back to the usual colours
    writer.set_color_code(ColorCode::new(Color::Yellow, Color::Black));
}

} // verus!
