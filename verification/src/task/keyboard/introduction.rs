//! What the keyboard task prints: a self-introduction, one part for each of
//! a few keys.
//!
//! A scancode from the queue is decoded by the keyboard driver, and the key
//! that it stands for decides what goes to the screen. Printing itself is
//! left to the caller.

use crate::vga_buffer::colored_letter::{colored, ColoredLetter, ColoredString};
use crate::vga_buffer::{Color, ColorCode};
use pc_keyboard::layouts::Us104Key;
use pc_keyboard::{DecodedKey, HandleControl, KeyCode, KeyEvent, PS2Keyboard, ScancodeSet1};
use vstd::prelude::*;

verus! {

/// The keyboard driver, `pc_keyboard::PS2Keyboard` for scancode set 1 and
/// the US layout with 104 keys. It keeps what it has read of a key press
/// that takes several scancodes, and which of the keys that change others
/// are held down. Nothing is known of what is inside it.
#[verifier::external_body]
pub struct Keyboard {
    driver: PS2Keyboard<Us104Key, ScancodeSet1>,
}

/// `pc_keyboard::KeyEvent`: a key, and whether it went down or up.
#[verifier::external_type_specification]
#[verifier::external_body]
pub struct ExKeyEvent(KeyEvent);

/// `pc_keyboard::KeyCode`: the name of a key, whatever scancodes stand
/// for it.
#[verifier::external_type_specification]
#[verifier::external_body]
pub struct ExKeyCode(KeyCode);

/// `PS2Keyboard::new`: a keyboard that reads scancode set 1 on the US layout
/// with 104 keys, and does nothing special for the control keys.
#[verifier::external_body]
fn new_keyboard() -> Keyboard {
    Keyboard { driver: PS2Keyboard::new(ScancodeSet1::new(), Us104Key, HandleControl::Ignore) }
}

/// The key event that a keyboard in the state `keyboard` gives for `byte`:
/// what `PS2Keyboard::add_byte` returns, with a byte that the keyboard
/// does not know giving none.
pub uninterp spec fn event_for(keyboard: Keyboard, byte: u8) -> Option<KeyEvent>;

/// The state of a keyboard that was in the state `keyboard` and has taken
/// `byte`: what `PS2Keyboard::add_byte` leaves.
pub uninterp spec fn keyboard_after_byte(keyboard: Keyboard, byte: u8) -> Keyboard;

/// The key that `event` stands for on a keyboard in the state `keyboard`:
/// what `PS2Keyboard::process_keyevent` returns.
pub uninterp spec fn key_for(keyboard: Keyboard, event: KeyEvent) -> Option<Key>;

/// The state of a keyboard that was in the state `keyboard` and has
/// processed `event`: what `PS2Keyboard::process_keyevent` leaves.
pub uninterp spec fn keyboard_after_event(keyboard: Keyboard, event: KeyEvent) -> Keyboard;

/// Whether `keycode` is `KeyCode::Escape`.
pub uninterp spec fn keycode_is_escape(keycode: KeyCode) -> bool;

/// The name of `keycode`: its `Debug` form.
pub uninterp spec fn keycode_debug(keycode: KeyCode) -> Seq<char>;

/// `PS2Keyboard::add_byte`: takes the next byte from the keyboard and gives
/// the key event that the byte completes, if it completes one. A byte that
/// the keyboard does not know gives none. Both the event and the state
/// that the keyboard is left in follow from the state it was in and the
/// byte alone.
#[verifier::external_body]
fn add_byte(keyboard: &mut Keyboard, byte: u8) -> (r: Option<KeyEvent>)
    ensures
        r == event_for(*old(keyboard), byte),
        *final(keyboard) == keyboard_after_byte(*old(keyboard), byte),
{
    match keyboard.driver.add_byte(byte) {
        Ok(event) => event,
        Err(_) => None,
    }
}

/// `PS2Keyboard::process_keyevent`: turns a key event into the key that it
/// stands for, a character or a key without one, if it stands for any.
/// Both the key and the state that the keyboard is left in follow from the
/// state it was in and the event alone.
#[verifier::external_body]
fn process_keyevent(keyboard: &mut Keyboard, event: KeyEvent) -> (r: Option<Key>)
    ensures
        r == key_for(*old(keyboard), event),
        *final(keyboard) == keyboard_after_event(*old(keyboard), event),
{
    match keyboard.driver.process_keyevent(event) {
        Some(DecodedKey::Unicode(character)) => Some(Key::Unicode(character)),
        Some(DecodedKey::RawKey(keycode)) => Some(Key::RawKey(keycode)),
        None => None,
    }
}

/// Tells `KeyCode::Escape` from the other key codes.
#[verifier::external_body]
fn is_escape(keycode: &KeyCode) -> (r: bool)
    ensures
        r == keycode_is_escape(*keycode),
{
    matches!(keycode, KeyCode::Escape)
}

/// The `Debug` form of a `KeyCode`: the name of the key.
#[verifier::external_body]
fn keycode_name(keycode: &KeyCode) -> (r: String)
    ensures
        r@ == keycode_debug(*keycode),
{
    format!("{:?}", keycode)
}

/// A key as the keyboard driver decodes it.
#[derive(Debug, Clone, Copy, PartialEq, Eq)]
pub enum Key {
    /// A key that stands for a character.
    Unicode(char),
    /// A key that stands for none.
    RawKey(KeyCode),
}

/// The pieces of coloured text as plain values.
pub open spec fn pieces_view(pieces: Seq<ColoredString>) -> Seq<Seq<ColoredLetter>> {
    Seq::new(pieces.len(), |i: int| pieces[i]@)
}

/// What goes to the screen for a key.
#[derive(Debug, Clone, PartialEq, Eq)]
pub enum Printout {
    /// Pieces of coloured text, to be printed one after the other.
    Colored(Vec<ColoredString>),
    /// The character itself.
    Char(char),
    /// The name of a key that stands for no character.
    KeyName(String),
}

/// `Printout` as plain values.
#[verifier::ext_equal]
pub enum PrintoutSpec {
    /// Pieces of coloured text, to be printed one after the other.
    Colored(Seq<Seq<ColoredLetter>>),
    /// The character itself.
    Char(char),
    /// The name of a key that stands for no character.
    KeyName(Seq<char>),
}

impl View for Printout {
    type V = PrintoutSpec;

    open spec fn view(&self) -> PrintoutSpec {
        match self {
            Printout::Colored(pieces) => PrintoutSpec::Colored(pieces_view(pieces@)),
            Printout::Char(character) => PrintoutSpec::Char(*character),
            Printout::KeyName(name) => PrintoutSpec::KeyName(name@),
        }
    }
}

/// One piece of text in one pair of colours.
pub open spec fn one_piece(text: Seq<char>, foreground: Color, background: Color) -> Seq<
    Seq<ColoredLetter>,
> {
    seq![colored(text, ColorCode::new(foreground, background))]
}

/// What is printed for the character `character`: a part of the
/// introduction for the keys that have one, and the character itself for
/// any other.
pub open spec fn introduction_for(character: char) -> PrintoutSpec {
    if character == 'i' {
        PrintoutSpec::Colored(icon_spec())
    } else if character == 'n' {
        PrintoutSpec::Colored(seq![name_spec()])
    } else if character == 'a' {
        PrintoutSpec::Colored(seq![age_spec()])
    } else if character == 'l' {
        PrintoutSpec::Colored(seq![language_spec()])
    } else if character == 'u' {
        PrintoutSpec::Colored(seq![university_spec()])
    } else if character == 'm' {
        PrintoutSpec::Colored(seq![major_spec()])
    } else if character == 'g' {
        PrintoutSpec::Colored(seq![grade_spec()])
    } else if character == 'p' {
        PrintoutSpec::Colored(seq![programing_language_spec()])
    } else if character == 'q' {
        PrintoutSpec::Colored(seq![qualification_spec()])
    } else {
        PrintoutSpec::Char(character)
    }
}

/// What is printed for a key that stands for no character: the picture for
/// the escape key, and the key's name for any other.
pub open spec fn keycode_printout(escape: bool, name: Seq<char>) -> PrintoutSpec {
    if escape {
        PrintoutSpec::Colored(icon_spec())
    } else {
        PrintoutSpec::KeyName(name)
    }
}

impl Keyboard {
    /// A keyboard that reads scancode set 1 on the US layout with 104 keys.
    pub fn new() -> Keyboard {
        new_keyboard()
    }
}

/// What goes to the screen for the decoded key `key`: for a character its
/// part of the introduction or the character itself, and for a key without
/// a character the picture or the key's name.
pub open spec fn printout_for(key: Key) -> PrintoutSpec {
    match key {
        Key::Unicode(character) => introduction_for(character),
        Key::RawKey(keycode) => keycode_printout(
            keycode_is_escape(keycode),
            keycode_debug(keycode),
        ),
    }
}

/// The key that `scancode` completes on a keyboard in the state `keyboard`:
/// the key of the event that the scancode gives, as the keyboard decodes it
/// once it has taken the scancode.
pub open spec fn decoded(keyboard: Keyboard, scancode: u8) -> Option<Key> {
    match event_for(keyboard, scancode) {
        Some(event) => key_for(keyboard_after_byte(keyboard, scancode), event),
        None => None,
    }
}

/// The state of a keyboard that was in the state `keyboard` and has taken
/// `scancode`, and has processed the event that the scancode gave, if it
/// gave one.
pub open spec fn keyboard_after(keyboard: Keyboard, scancode: u8) -> Keyboard {
    match event_for(keyboard, scancode) {
        Some(event) => keyboard_after_event(keyboard_after_byte(keyboard, scancode), event),
        None => keyboard_after_byte(keyboard, scancode),
    }
}

/// Takes the next scancode from the keyboard and decides what goes to the
/// screen for it: nothing, while the scancode completes no key press, and
/// else what the key that was pressed is answered with.
pub fn print_keypress(keyboard: &mut Keyboard, scancode: u8) -> (r: Option<Printout>)
    ensures
        match decoded(*old(keyboard), scancode) {
            Some(key) => r matches Some(printout) && printout@ == printout_for(key),
            None => r is None,
        },
        *final(keyboard) == keyboard_after(*old(keyboard), scancode),
{
    if let Some(key_event) = add_byte(keyboard, scancode) {
        if let Some(key) = process_keyevent(keyboard, key_event) {
            return Some(key_printout(key));
        }
    }
    None
}

/// What goes to the screen for the decoded key `key`.
pub fn key_printout(key: Key) -> (r: Printout)
    ensures
        r@ == printout_for(key),
{
    match key {
        Key::Unicode(character) => introductions_by_char(character),
        Key::RawKey(key) => introductions_by_keycode(key),
    }
}

/// What goes to the screen for the character `char`.
pub fn introductions_by_char(char: char) -> (r: Printout)
    ensures
        r@ == introduction_for(char),
{
    let printout = match char {
        'i' => Printout::Colored(introduction_icon()),
        'n' => Printout::Colored(single(introduction_name())),
        'a' => Printout::Colored(single(introduction_age())),
        'l' => Printout::Colored(single(introduction_language())),
        'u' => Printout::Colored(single(introduction_university())),
        'm' => Printout::Colored(single(introduction_major())),
        'g' => Printout::Colored(single(introduction_grade())),
        'p' => Printout::Colored(single(introduction_programing_language())),
        'q' => Printout::Colored(single(introduction_qualification())),
        _ => Printout::Char(char),
    };
    printout
}

/// What goes to the screen for the key code `keycode`, which stands for no
/// character.
pub fn introductions_by_keycode(keycode: KeyCode) -> (r: Printout)
    ensures
        r@ == keycode_printout(keycode_is_escape(keycode), keycode_debug(keycode)),
{
    let escape = is_escape(&keycode);
    let name = keycode_name(&keycode);
    printout_of_keycode(escape, name)
}

/// What goes to the screen for a key that stands for no character, which
/// is the escape key or not, and has the name `name`.
pub fn printout_of_keycode(escape: bool, name: String) -> (r: Printout)
    ensures
        r@ == keycode_printout(escape, name@),
{
    let printout = if escape {
        Printout::Colored(introduction_icon())
    } else {
        Printout::KeyName(name)
    };
    printout
}

/// The one piece `piece` as a run of pieces.
fn single(piece: ColoredString) -> (r: Vec<ColoredString>)
    ensures
        pieces_view(r@) == seq![piece@],
{
    let mut pieces = Vec::new();
    pieces.push(piece);
    assert(pieces_view(pieces@) =~= seq![piece@]);
    pieces
}

/// The colours of a piece of coloured text spread over its parts.
proof fn lemma_colored_concat(first: Seq<char>, second: Seq<char>, color_code: ColorCode)
    ensures
        colored(first + second, color_code) == colored(first, color_code) + colored(
            second,
            color_code,
        ),
{
    assert(colored(first + second, color_code) =~= colored(first, color_code) + colored(
        second,
        color_code,
    ));
}

/// The name, in black on white.
pub open spec fn name_spec() -> Seq<ColoredLetter> {
    colored(
        "\n "@ + "name: neruneruna7"@ + "\n "@ + "neru7"@ + "\n "@ + "peyang gawa ganzisu"@,
        ColorCode::new(Color::Black, Color::White),
    )
}

/// The name.
pub fn introduction_name() -> (r: ColoredString)
    ensures
        r@ == name_spec(),
{
    let name = "name: neruneruna7";
    let nick = "neru7";
    let other_name = "peyang gawa ganzisu";
    let color_code = ColorCode::new(Color::Black, Color::White);
    let mut colored_string = ColoredString::new();
    colored_string.push("\n ", color_code);
    colored_string.push(name, color_code);
    colored_string.push("\n ", color_code);
    colored_string.push(nick, color_code);
    colored_string.push("\n ", color_code);
    colored_string.push(other_name, color_code);
    proof {
        let lead = "\n "@;
        assert(Seq::<ColoredLetter>::empty() + colored(lead, color_code) =~= colored(
            lead,
            color_code,
        ));
        lemma_colored_concat(lead, name@, color_code);
        lemma_colored_concat(lead + name@, lead, color_code);
        lemma_colored_concat(lead + name@ + lead, nick@, color_code);
        lemma_colored_concat(lead + name@ + lead + nick@, lead, color_code);
        lemma_colored_concat(lead + name@ + lead + nick@ + lead, other_name@, color_code);
    }
    colored_string
}

/// The age, in black on cyan.
pub open spec fn age_spec() -> Seq<ColoredLetter> {
    colored("\n age: 20"@, ColorCode::new(Color::Black, Color::Cyan))
}

/// The age.
pub fn introduction_age() -> (r: ColoredString)
    ensures
        r@ == age_spec(),
{
    let s = "\n age: 20";
    let color_code = ColorCode::new(Color::Black, Color::Cyan);
    ColoredString::from(s, color_code)
}

/// The language, in red on light gray.
pub open spec fn language_spec() -> Seq<ColoredLetter> {
    colored("\n language: japanese"@, ColorCode::new(Color::Red, Color::LightGray))
}

/// The language.
pub fn introduction_language() -> (r: ColoredString)
    ensures
        r@ == language_spec(),
{
    let s = "\n language: japanese";
    let color_code = ColorCode::new(Color::Red, Color::LightGray);
    ColoredString::from(s, color_code)
}

/// The university, in white on red.
pub open spec fn university_spec() -> Seq<ColoredLetter> {
    colored("\n university: meijo university"@, ColorCode::new(Color::White, Color::Red))
}

/// The university.
pub fn introduction_university() -> (r: ColoredString)
    ensures
        r@ == university_spec(),
{
    let s = "\n university: meijo university";
    let color_code = ColorCode::new(Color::White, Color::Red);
    ColoredString::from(s, color_code)
}

/// The major, in yellow on blue.
pub open spec fn major_spec() -> Seq<ColoredLetter> {
    colored("\n major: Infomation Engineering"@, ColorCode::new(Color::Yellow, Color::Blue))
}

/// The major.
pub fn introduction_major() -> (r: ColoredString)
    ensures
        r@ == major_spec(),
{
    let s = "\n major: Infomation Engineering";
    let color_code = ColorCode::new(Color::Yellow, Color::Blue);
    ColoredString::from(s, color_code)
}

/// The grade, in green on pink.
pub open spec fn grade_spec() -> Seq<ColoredLetter> {
    colored("\n grade: B2"@, ColorCode::new(Color::Green, Color::Pink))
}

/// The grade.
pub fn introduction_grade() -> (r: ColoredString)
    ensures
        r@ == grade_spec(),
{
    let s = "\n grade: B2";
    let color_code = ColorCode::new(Color::Green, Color::Pink);
    ColoredString::from(s, color_code)
}

/// The programming languages, in black on light cyan.
pub open spec fn programing_language_spec() -> Seq<ColoredLetter> {
    colored(
        "\n programing language: rust, python, ..."@,
        ColorCode::new(Color::Black, Color::LightCyan),
    )
}

/// The programming languages.
pub fn introduction_programing_language() -> (r: ColoredString)
    ensures
        r@ == programing_language_spec(),
{
    let s = "\n programing language: rust, python, ...";
    let color_code = ColorCode::new(Color::Black, Color::LightCyan);
    ColoredString::from(s, color_code)
}

/// The qualifications, in light green on magenta.
pub open spec fn qualification_spec() -> Seq<ColoredLetter> {
    colored(
        "\nqualification: \n    AP (Applied Information Technology Engineer Examination)\n    nissyo boki syokyuu\n    other else"@,
        ColorCode::new(Color::LightGreen, Color::Magenta),
    )
}

/// The qualifications.
pub fn introduction_qualification() -> (r: ColoredString)
    ensures
        r@ == qualification_spec(),
{
    let s =
        "\nqualification: \n    AP (Applied Information Technology Engineer Examination)\n    nissyo boki syokyuu\n    other else";
    let color_code = ColorCode::new(Color::LightGreen, Color::Magenta);
    ColoredString::from(s, color_code)
}

/// The picture, piece by piece: the text of each piece with its foreground
/// and background colour.
pub const ICON: [(&'static str, Color, Color); 101] = [
    ("VVyyVyyVyyVyyVfWyyyyyyyyyyZZUUVO111?", Color::LightGray, Color::DarkGray),
    ("+<+11=1zz", Color::Brown, Color::Yellow),
    ("OVUUZyyyyyyyyyZZZZXZZuuuuzzzzvvvrvv\n", Color::LightGray, Color::DarkGray),
    ("WZZyyWyVVyyyWyyyyyVyyyUVI11", Color::LightGray, Color::DarkGray),
    ("??<><>>>?<>>+>+???====z", Color::Brown, Color::Yellow),
    ("Ow0XyZZXZZZZZuuZuuuuzzvvrrrrrr\n", Color::LightGray, Color::DarkGray),
    ("ZZZyyyWyyyyyyyyyyyy0C", Color::LightGray, Color::DarkGray),
    ("<<;>>;;;;>>11z+-", Color::Brown, Color::Yellow),
    ("dOOz??", Color::Cyan, Color::White),
    ("+>>>??>>?+z", Color::Brown, Color::Yellow),
    ("OXZyZZZZuZZZuuzzzzvvvrrrr\n", Color::LightGray, Color::DarkGray),
    ("ZZyZZZXZZZZZZZZyZX6", Color::LightGray, Color::DarkGray),
    ("?<;;<;;;;;++?1zzzjv611l1++>??>??>>+??=", Color::Brown, Color::Yellow),
    ("wWZZZZuuXuuzzzzvvvrvrvr\n", Color::LightGray, Color::DarkGray),
    ("ZZZZZZZZZXXZZZyZV", Color::LightGray, Color::DarkGray),
    ("<<;;;::::;;;;+1zz+1+<+<+1<<;;;;>;>>>>+z?=z", Color::Brown, Color::Yellow),
    ("XXXUuXX0XXzzvvrrrrrrw\n", Color::LightGray, Color::DarkGray),
    ("ZZZZuZZZuZZZZZ0C", Color::LightGray, Color::DarkGray),
    ("<::<:<::::::::::;::<<<<1<<<+::::;;;;>>>>?=lO", Color::Brown, Color::Yellow),
    ("XZZZZuuuuuzzvrvvrrvr\n", Color::LightGray, Color::DarkGray),
    ("XZyyZyyyZyyyZ0", Color::LightGray, Color::DarkGray),
    ("<<:~~~::~:~:~~::::::<:::::<(<;<::<<<;;;>>??lltr", Color::Brown, Color::Yellow),
    ("XZZZuuuzzzzzvrrvrrr\n", Color::LightGray, Color::DarkGray),
    ("ZZZZZZZZZZZZ0", Color::LightGray, Color::DarkGray),
    ("<<~:~~~~~:~~~~:::::::::~::::;><<<<+;;:<<>+1==ltrw", Color::Brown, Color::Yellow),
    ("ZuZuuuuuuzuzzzvvzz\n", Color::LightGray, Color::DarkGray),
    ("ZyyyWyyyyyWWC", Color::LightGray, Color::DarkGray),
    ("::~_~_~__~~_:~_~:~~~~:::~<:::<::;;:<:<<<>+??=lttwy", Color::Brown, Color::Yellow),
    ("ZZZuuuuuuuuzzzzzz\n", Color::LightGray, Color::DarkGray),
    ("uuXZZZZZZyyW", Color::LightGray, Color::DarkGray),
    ("<:~_~__~~~~.~_~_~~~~:~::_::::_:<;:;:_~~<<<+<1llltv", Color::Brown, Color::Yellow),
    ("XWyZZZuuuuuuuuuuuu\n", Color::LightGray, Color::DarkGray),
    ("uuuuuuuuZXWW", Color::LightGray, Color::DarkGray),
    ("<<:__  _...~..` -.__~_~~::~<:::(<<<:<(_<<<?==llOrv", Color::Brown, Color::Yellow),
    ("XyyZuXzuuuuuuuXzzz\n", Color::LightGray, Color::DarkGray),
    ("XUZZZZyyVppf2", Color::LightGray, Color::DarkGray),
    ("<<__``. ..~_....-_____~~_::::::(<_<:(<<?==llztrvw", Color::Brown, Color::Yellow),
    ("XWVWXuuXZZZZZuuuww\n", Color::LightGray, Color::DarkGray),
    ("XyXZZyXXWpbpW", Color::LightGray, Color::DarkGray),
    ("+<__`  ...~~~~__~.____~__:::::<:(<;<<=?==llltrvz", Color::Brown, Color::Yellow),
    ("ZXfffXZyyZyZZZuuuuu\n", Color::LightGray, Color::DarkGray),
    ("yyyWpWfppbbkkk", Color::LightGray, Color::DarkGray),
    ("<:___...._~_~_~~~~_~_~:_~:<;>;;<+?===lllttrrzu", Color::Brown, Color::Yellow),
    ("XyWpbWWZZyZZZZZuuZuu\n", Color::LightGray, Color::DarkGray),
    ("ZZZZWyVfppbbbbc", Color::LightGray, Color::DarkGray),
    ("<<~~~~_~_~~::<(__::~_((<++<???==1zllltttrwzu", Color::Brown, Color::Yellow),
    ("ZXpppppfZZZZZZZZZZZuZ\n", Color::LightGray, Color::DarkGray),
    ("uZZZuuXZyVfWWkkz", Color::LightGray, Color::DarkGray),
    ("<;<:_:~<~::<~::_++", Color::Brown, Color::Yellow),
    ("ewVYT77TTUXAszO", Color::DarkGray, Color::Brown),
    ("zttrwzuXXy", Color::Brown, Color::Yellow),
    ("WpbppffWyyyZyZZyZZZZZ\n", Color::LightGray, Color::DarkGray),
    ("uuuuuuXZyVffpbbW", Color::LightGray, Color::DarkGray),
    ("z>><<<(;;;<<<+", Color::Brown, Color::Yellow),
    ("jXY", Color::DarkGray, Color::Brown),
    ("<(-___~~(-(,_?", Color::Black, Color::Yellow),
    ("Wk", Color::DarkGray, Color::Brown),
    ("wrzzuXXy", Color::Brown, Color::Yellow),
    ("WWkkkbpffyyyyyyZZZZZZZZ\n", Color::LightGray, Color::DarkGray),
    ("ZXXXyyyyyyWpWWkkksz", Color::LightGray, Color::DarkGray),
    ("?>>?+++?+j", Color::Brown, Color::Yellow),
    ("W=", Color::DarkGray, Color::Brown),
    ("(M@TMfT=~j#BM#US<?", Color::Black, Color::Yellow),
    ("Wk", Color::DarkGray, Color::Brown),
    ("XXXfW", Color::Brown, Color::Yellow),
    ("   i: icon              \n", Color::Yellow, Color::Black),
    ("yyyVyWyyyWVffWpppbkzz", Color::LightGray, Color::DarkGray),
    ("=?z??=jp", Color::Brown, Color::Yellow),
    ("C~", Color::DarkGray, Color::Brown),
    ("___________________", Color::Black, Color::Yellow),
    ("HW", Color::DarkGray, Color::Brown),
    ("pp", Color::Brown, Color::Yellow),
    (" n: name, a: age,         \n", Color::Yellow, Color::Black),
    ("yZWWWyyyyyWWWWWWWHWbkszz", Color::LightGray, Color::DarkGray),
    ("l=ldW", Color::Brown, Color::Yellow),
    ("<~", Color::DarkGray, Color::Brown),
    (" koukoiku no sina  ", Color::Black, Color::Yellow),
    ("Wm", Color::DarkGray, Color::Brown),
    ("q", Color::Brown, Color::Yellow),
    (" l: language, u: university\n", Color::Yellow, Color::Black),
    ("WWVXXXyyXyyVWWWWfWbkbpWmAw", Color::LightGray, Color::DarkGray),
    ("OtW", Color::Brown, Color::Yellow),
    ("n~", Color::DarkGray, Color::Brown),
    ("__________________", Color::Black, Color::Yellow),
    ("jg", Color::DarkGray, Color::Brown),
    ("@", Color::Brown, Color::Yellow),
    (" m: major, q: qualification ", Color::Yellow, Color::Black),
    ("yyyyXXWyyyyZyyWWWWWkkHkkkqq", Color::LightGray, Color::DarkGray),
    ("HmXh", Color::Brown, Color::Yellow),
    ("JM", Color::DarkGray, Color::Brown),
    ("gM6+g#<MkMd#d@", Color::Black, Color::Yellow),
    ("+j", Color::DarkGray, Color::Brown),
    ("M", Color::Brown, Color::Yellow),
    (" g: grade, p: programing lang ", Color::Yellow, Color::Black),
    ("fffWWWWWfVVVffWyWpWWfWHqqHHkkkqqHma", Color::LightGray, Color::DarkGray),
    ("", Color::Brown, Color::Yellow),
    ("+++>", Color::DarkGray, Color::Brown),
    (";;", Color::Black, Color::Yellow),
    ("<++jg", Color::DarkGray, Color::Brown),
    ("", Color::Brown, Color::Yellow),
    ("WHH@@MMgHqkbWWXyZZZyZyyyVVfffppfff", Color::LightGray, Color::DarkGray),
];

/// The pieces of the picture as coloured text.
pub open spec fn icon_spec() -> Seq<Seq<ColoredLetter>> {
    Seq::new(ICON@.len(), |i: int| colored(ICON@[i].0@, ColorCode::new(ICON@[i].1, ICON@[i].2)))
}

/// The picture.
pub fn introduction_icon() -> (r: Vec<ColoredString>)
    ensures
        pieces_view(r@) == icon_spec(),
{
    let mut pieces: Vec<ColoredString> = Vec::new();
    let mut index: usize = 0;
    while index < ICON.len()
        invariant
            index <= ICON@.len(),
            pieces@.len() == index,
            forall|i: int| 0 <= i < index ==> #[trigger] pieces@[i]@ == icon_spec()[i],
        decreases ICON@.len() - index,
    {
        let piece = ICON[index];
        pieces.push(ColoredString::from(piece.0, ColorCode::new(piece.1, piece.2)));
        index += 1;
    }
    assert(pieces_view(pieces@) =~= icon_spec());
    pieces
}

} // verus!
