use pc_keyboard::KeyCode;
use wos_os_n71::task::keyboard::introduction::{
    introduction_age, introduction_grade, introduction_icon, introduction_language,
    introduction_major, introduction_name, introduction_programing_language,
    introduction_qualification, introduction_university, introductions_by_char,
    introductions_by_keycode, key_printout,
    print_keypress, printout_of_keycode, Key, Keyboard, Printout, ICON,
};
use wos_os_n71::vga_buffer::colored_letter::ColoredString;
use wos_os_n71::vga_buffer::{Color, ColorCode};

fn text_of(colored: &ColoredString) -> String {
    (0..colored.len()).map(|i| colored.get(i).ascii_character).collect()
}

fn colors_of(colored: &ColoredString) -> Vec<ColorCode> {
    (0..colored.len()).map(|i| colored.get(i).color_code).collect()
}

fn check(colored: ColoredString, text: &str, foreground: Color, background: Color) {
    assert_eq!(colored, ColoredString::from(text, ColorCode::new(foreground, background)));
    assert_eq!(text_of(&colored), text);
}

#[test]
fn introduction_texts() {
    check(
        introduction_name(),
        "\n name: neruneruna7\n neru7\n peyang gawa ganzisu",
        Color::Black,
        Color::White,
    );
    check(introduction_age(), "\n age: 20", Color::Black, Color::Cyan);
    check(introduction_language(), "\n language: japanese", Color::Red, Color::LightGray);
    check(
        introduction_university(),
        "\n university: meijo university",
        Color::White,
        Color::Red,
    );
    check(introduction_major(), "\n major: Infomation Engineering", Color::Yellow, Color::Blue);
    check(introduction_grade(), "\n grade: B2", Color::Green, Color::Pink);
    check(
        introduction_programing_language(),
        "\n programing language: rust, python, ...",
        Color::Black,
        Color::LightCyan,
    );
    check(
        introduction_qualification(),
        "\nqualification: \n    AP (Applied Information Technology Engineer Examination)\n    nissyo boki syokyuu\n    other else",
        Color::LightGreen,
        Color::Magenta,
    );
}

#[test]
fn icon_is_made_of_its_pieces() {
    let icon = introduction_icon();
    assert_eq!(icon.len(), 101);
    assert_eq!(icon.len(), ICON.len());
    for (piece, (text, foreground, background)) in icon.iter().zip(ICON.iter()) {
        assert_eq!(*piece, ColoredString::from(text, ColorCode::new(*foreground, *background)));
    }
    assert_eq!(text_of(&icon[0]), "VVyyVyyVyyVyyVfWyyyyyyyyyyZZUUVO111?");
    assert!(colors_of(&icon[0]).iter().all(|c| *c == ColorCode(0x87)));
    assert_eq!(text_of(&icon[1]), "+<+11=1zz");
    assert!(colors_of(&icon[1]).iter().all(|c| *c == ColorCode(0xe6)));
    assert_eq!(text_of(&icon[100]), "WHH@@MMgHqkbWWXyZZZyZyyyVVfffppfff");
    // two pieces are empty
    assert_eq!(icon.iter().filter(|piece| piece.len() == 0).count(), 2);
}

#[test]
fn icon_has_twenty_line_breaks() {
    let mut whole = String::new();
    for piece in introduction_icon() {
        whole.push_str(&text_of(&piece));
    }
    let rows: Vec<&str> = whole.split('\n').collect();
    assert_eq!(rows.len(), 21);
    assert_eq!(rows[0].len(), 80);
    assert_eq!(rows[1].len(), 80);
    assert_eq!(whole.chars().count(), 1859);
}

#[test]
fn characters_pick_their_part_of_the_introduction() {
    assert_eq!(introductions_by_char('i'), Printout::Colored(introduction_icon()));
    assert_eq!(introductions_by_char('n'), Printout::Colored(vec![introduction_name()]));
    assert_eq!(introductions_by_char('a'), Printout::Colored(vec![introduction_age()]));
    assert_eq!(introductions_by_char('l'), Printout::Colored(vec![introduction_language()]));
    assert_eq!(introductions_by_char('u'), Printout::Colored(vec![introduction_university()]));
    assert_eq!(introductions_by_char('m'), Printout::Colored(vec![introduction_major()]));
    assert_eq!(introductions_by_char('g'), Printout::Colored(vec![introduction_grade()]));
    assert_eq!(
        introductions_by_char('p'),
        Printout::Colored(vec![introduction_programing_language()])
    );
    assert_eq!(
        introductions_by_char('q'),
        Printout::Colored(vec![introduction_qualification()])
    );
}

#[test]
fn other_characters_are_echoed() {
    for character in ['x', 'I', 'N', '1', ' ', '\n', '\u{3042}'] {
        assert_eq!(introductions_by_char(character), Printout::Char(character));
        assert_eq!(key_printout(Key::Unicode(character)), Printout::Char(character));
    }
    assert_eq!(key_printout(Key::Unicode('a')), Printout::Colored(vec![introduction_age()]));
}

#[test]
fn keys_without_a_character_give_the_icon_or_their_name() {
    assert_eq!(
        printout_of_keycode(true, String::from("Escape")),
        Printout::Colored(introduction_icon())
    );
    assert_eq!(
        printout_of_keycode(false, String::from("F1")),
        Printout::KeyName(String::from("F1"))
    );
}

#[test]
fn scancodes_are_decoded_by_the_keyboard() {
    let mut keyboard = Keyboard::new();
    // 'a' is pressed and released
    assert_eq!(
        print_keypress(&mut keyboard, 0x1e),
        Some(Printout::Colored(vec![introduction_age()]))
    );
    assert_eq!(print_keypress(&mut keyboard, 0x9e), None);
    // 'i'
    assert_eq!(print_keypress(&mut keyboard, 0x17), Some(Printout::Colored(introduction_icon())));
    assert_eq!(print_keypress(&mut keyboard, 0x97), None);
    // 'x' has no part of the introduction
    assert_eq!(print_keypress(&mut keyboard, 0x2d), Some(Printout::Char('x')));
    assert_eq!(print_keypress(&mut keyboard, 0xad), None);
    // the escape key stands for a character of its own on this layout
    assert_eq!(print_keypress(&mut keyboard, 0x01), Some(Printout::Char('\u{1b}')));
    assert_eq!(print_keypress(&mut keyboard, 0x81), None);
    // F1 has a name only
    assert_eq!(print_keypress(&mut keyboard, 0x3b), Some(Printout::KeyName(String::from("F1"))));
}

#[test]
fn keyboard_remembers_the_shift_key() {
    let mut keyboard = Keyboard::new();
    // left shift goes down: a key without a character
    assert_eq!(
        print_keypress(&mut keyboard, 0x2a),
        Some(Printout::KeyName(String::from("LShift")))
    );
    // with shift held, 'a' is 'A', which has no part
    assert_eq!(print_keypress(&mut keyboard, 0x1e), Some(Printout::Char('A')));
    assert_eq!(print_keypress(&mut keyboard, 0xaa), None);
    assert_eq!(
        print_keypress(&mut keyboard, 0x1e),
        Some(Printout::Colored(vec![introduction_age()]))
    );
}

#[test]
fn keyboard_takes_keys_of_two_scancodes() {
    let mut keyboard = Keyboard::new();
    // the first byte of an extended key completes nothing
    assert_eq!(print_keypress(&mut keyboard, 0xe0), None);
    assert_eq!(
        print_keypress(&mut keyboard, 0x48),
        Some(Printout::KeyName(String::from("ArrowUp")))
    );
    // a byte that the keyboard does not know
    assert_eq!(print_keypress(&mut keyboard, 0x7f), None);
}

#[test]
fn key_codes_give_the_icon_or_their_name() {
    assert_eq!(introductions_by_keycode(KeyCode::Escape), Printout::Colored(introduction_icon()));
    assert_eq!(introductions_by_keycode(KeyCode::F1), Printout::KeyName(String::from("F1")));
    assert_eq!(
        introductions_by_keycode(KeyCode::ArrowLeft),
        Printout::KeyName(String::from("ArrowLeft"))
    );
    assert_eq!(key_printout(Key::RawKey(KeyCode::Escape)), Printout::Colored(introduction_icon()));
    assert_eq!(
        key_printout(Key::RawKey(KeyCode::LControl)),
        Printout::KeyName(String::from("LControl"))
    );
}
