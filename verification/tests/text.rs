use w1_gate::text::{chars_of, find_first, is_space_char, trim_chars};

fn chars(text: &str) -> Vec<char> {
    text.chars().collect()
}

#[test]
fn chars_of_gives_the_characters() {
    assert_eq!(chars_of(""), Vec::<char>::new());
    assert_eq!(chars_of("a-b"), vec!['a', '-', 'b']);
    assert_eq!(chars_of("é,ß\n"), vec!['é', ',', 'ß', '\n']);
}

#[test]
fn find_first_gives_the_first_place() {
    assert_eq!(find_first(&chars(""), '-'), None);
    assert_eq!(find_first(&chars("abc"), '-'), None);
    assert_eq!(find_first(&chars("-abc"), '-'), Some(0));
    assert_eq!(find_first(&chars("ab-c-d"), '-'), Some(2));
    assert_eq!(find_first(&chars("éé-c"), '-'), Some(2));
    assert_eq!(find_first(&chars("abc-"), '-'), Some(3));
}

#[test]
fn white_space_is_what_the_standard_library_calls_so() {
    for code in 0..=0x10ffffu32 {
        if let Some(c) = char::from_u32(code) {
            assert_eq!(is_space_char(c), c.is_whitespace(), "{code:#x}");
        }
    }
}

#[test]
fn trim_chars_cuts_both_ends() {
    assert_eq!(trim_chars(&chars("")), &chars("")[..]);
    assert_eq!(trim_chars(&chars("   ")), &chars("")[..]);
    assert_eq!(trim_chars(&chars("abc")), &chars("abc")[..]);
    assert_eq!(trim_chars(&chars("  a b\t\r\n")), &chars("a b")[..]);
    assert_eq!(trim_chars(&chars("\u{a0}\u{3000}x\u{2003}")), &chars("x")[..]);
    assert_eq!(trim_chars(&chars("\u{200b}x")), &chars("\u{200b}x")[..]);
}

#[test]
fn trim_chars_agrees_with_the_standard_library() {
    for text in ["", " ", "a", " a", "a ", " a ", "\t\ta,b  c \r\n", "\u{85}#\u{2028}", " \u{1680} "] {
        let expected: Vec<char> = text.trim().chars().collect();
        assert_eq!(trim_chars(&chars(text)), &expected[..], "{text:?}");
    }
}
