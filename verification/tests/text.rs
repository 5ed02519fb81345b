use awsp::text::{
    char_is_padding, char_is_whitespace, chars_are_blank, chars_of, find_char, lowercase_contains,
    lowercase_is, trim_bounds, Padding,
};

fn chars(text: &str) -> Vec<char> {
    text.chars().collect()
}

fn trimmed(text: &str, padding: Padding) -> String {
    let all = chars(text);
    let (from, to) = trim_bounds(&all, 0, all.len(), padding);
    all[from..to].iter().collect()
}

#[test]
fn chars_of_should_give_the_characters_in_order() {
    assert_eq!(vec!['a', 'b', 'c'], chars_of("abc"));
    assert_eq!(vec!['\u{e9}', ' ', '\u{4e2d}'], chars_of("\u{e9} \u{4e2d}"));
    assert_eq!(Vec::<char>::new(), chars_of(""));
}

#[test]
fn char_is_whitespace_should_agree_with_the_standard_library_on_every_character() {
    let mut code: u32 = 0;
    while code <= 0x10FFFF {
        if let Some(c) = char::from_u32(code) {
            assert_eq!(c.is_whitespace(), char_is_whitespace(c), "U+{:04X}", code);
        }
        code += 1;
    }
}

#[test]
fn char_is_padding_should_take_only_the_space_where_spaces_are_asked() {
    assert_eq!(true, char_is_padding(' ', Padding::Spaces));
    assert_eq!(false, char_is_padding('\t', Padding::Spaces));
    assert_eq!(true, char_is_padding('\t', Padding::Whitespace));
    assert_eq!(true, char_is_padding(' ', Padding::Whitespace));
    assert_eq!(false, char_is_padding('a', Padding::Whitespace));
}

#[test]
fn chars_are_blank_should_hold_of_whitespace_only() {
    assert_eq!(true, chars_are_blank(&chars("")));
    assert_eq!(true, chars_are_blank(&chars(" \t\r")));
    assert_eq!(false, chars_are_blank(&chars(" a ")));
}

#[test]
fn trim_bounds_should_agree_with_trim() {
    for text in ["", " ", "a", "  a", "a  ", "  a b  ", "\t a \u{a0}", " \t ", "a\tb"] {
        assert_eq!(text.trim(), trimmed(text, Padding::Whitespace), "text {:?}", text);
        assert_eq!(text.trim_matches(' '), trimmed(text, Padding::Spaces), "text {:?}", text);
    }
}

#[test]
fn trim_bounds_should_stay_within_the_range_given() {
    let all = chars("  ab  cd  ");
    assert_eq!((2, 4), trim_bounds(&all, 0, 5, Padding::Whitespace));
    assert_eq!((6, 8), trim_bounds(&all, 4, 10, Padding::Whitespace));
    assert_eq!((6, 6), trim_bounds(&all, 4, 6, Padding::Whitespace));
}

#[test]
fn find_char_should_give_the_first_position_or_the_length() {
    let all = chars("a=b=c");
    assert_eq!(1, find_char(&all, 0, 5, '='));
    assert_eq!(1, find_char(&all, 2, 5, '='));
    assert_eq!(1, find_char(&all, 4, 5, '='));
    assert_eq!(0, find_char(&all, 1, 5, '='));
    assert_eq!(5, find_char(&all, 0, 5, '#'));
    assert_eq!(0, find_char(&all, 5, 5, '='));
}

#[test]
fn lowercase_is_should_fold_ascii_capitals_only() {
    assert_eq!(true, lowercase_is('A', 'a'));
    assert_eq!(true, lowercase_is('a', 'a'));
    assert_eq!(true, lowercase_is('Z', 'z'));
    assert_eq!(false, lowercase_is('a', 'A'));
    assert_eq!(false, lowercase_is('\u{c9}', '\u{e9}'));
    assert_eq!(true, lowercase_is('_', '_'));
    assert_eq!(false, lowercase_is('@', '`'));
    assert_eq!(false, lowercase_is('[', '{'));
}

#[test]
fn lowercase_contains_should_agree_with_contains_on_the_lowercased_text() {
    let needles = ["aws_access_key_id", "key", "", "a", "id="];
    let hays = [
        "aws_access_key_id=foo",
        "AWS_ACCESS_KEY_ID = foo",
        "Aws_Access_Key_Id",
        "aws_access_key_i",
        "xaws_access_key_idx",
        "",
        "KEY",
        "aws_secret_access_key=KEY",
    ];
    for hay in hays {
        for needle in needles {
            assert_eq!(
                hay.to_ascii_lowercase().contains(needle),
                lowercase_contains(&chars(hay), &chars(needle)),
                "hay {:?} needle {:?}",
                hay,
                needle
            );
        }
    }
}
