use camera_watch::text::{
    char_is_blank, chars_of, chars_precede, join_strings, name_precedes, occurs_at, push_chars,
    push_decimal, push_str, replace_chars, same_text, string_of, trim_chars,
};

fn chars(s: &str) -> Vec<char> {
    s.chars().collect()
}

fn decimal(n: u64) -> String {
    let mut out = Vec::new();
    push_decimal(&mut out, n);
    string_of(&out)
}

#[test]
fn chars_of_and_string_of_are_inverse() {
    let text = "Z\u{fc}rich - Nord (A2)";
    assert_eq!(chars_of(text), chars(text));
    assert_eq!(string_of(&chars_of(text)), text);
    assert_eq!(string_of(&Vec::new()), "");
}

#[test]
fn push_str_and_push_chars_append() {
    let mut out = chars("ab");
    push_str(&mut out, "cd");
    push_chars(&mut out, &chars("ef"));
    assert_eq!(string_of(&out), "abcdef");
}

#[test]
fn decimal_renders_like_the_standard_library() {
    for n in [0u64, 1, 9, 10, 11, 99, 100, 600, 800, 65535, 1234567890, u64::MAX] {
        assert_eq!(decimal(n), n.to_string());
    }
}

#[test]
fn names_are_ordered_like_strings() {
    let names = [
        "", "A", "AB", "B", "a", "ab", "b", "Z\u{fc}rich", "Zug", "\u{e4}", "z", "\u{ffff}",
        "\u{1f600}", "a\u{1f600}", "a\u{e4}",
    ];
    for a in names {
        for b in names {
            assert_eq!(name_precedes(a, b), a < b, "{:?} before {:?}", a, b);
            assert_eq!(chars_precede(&chars(a), &chars(b)), a < b);
        }
    }
}

#[test]
fn same_text_compares_characters() {
    assert!(same_text("abc", "abc"));
    assert!(!same_text("abc", "abd"));
    assert!(!same_text("abc", "ab"));
    assert!(same_text("", ""));
}

#[test]
fn occurs_at_finds_a_pattern_only_where_it_stands() {
    let text = chars("a - b");
    assert!(occurs_at(&text, 1, &chars(" - ")));
    assert!(!occurs_at(&text, 0, &chars(" - ")));
    assert!(!occurs_at(&text, 3, &chars(" - ")));
    assert!(!occurs_at(&text, 9, &chars(" - ")));
    assert!(occurs_at(&text, 5, &chars("")));
}

#[test]
fn replace_chars_replaces_like_the_standard_library() {
    let cases = [
        ("a - b - c", " - ", "-"),
        ("  -  - ", " - ", "-"),
        ("(a)(b)", "(", ""),
        ("a b  c", " ", "_"),
        ("aaaa", "aa", "b"),
        ("aaa", "aa", "b"),
        ("abc", "abcd", "x"),
        ("", "a", "b"),
    ];
    for (text, pattern, with) in cases {
        let got = replace_chars(&chars(text), &chars(pattern), &chars(with));
        assert_eq!(string_of(&got), text.replace(pattern, with));
    }
}

#[test]
fn replace_chars_leaves_the_text_alone_for_an_empty_pattern() {
    let got = replace_chars(&chars("abc"), &chars(""), &chars("x"));
    assert_eq!(string_of(&got), "abc");
}

#[test]
fn trim_chars_trims_like_the_standard_library() {
    let cases = [
        "  a b  ",
        "\t\n a\u{a0}",
        "\u{2003}x\u{3000}",
        "   ",
        "",
        "abc",
        " a",
        "a ",
        "\u{85}a\u{1680}b\u{2028}\u{2029}\u{202f}\u{205f}",
    ];
    for text in cases {
        assert_eq!(string_of(&trim_chars(&chars(text))), text.trim());
    }
}

#[test]
fn char_is_blank_agrees_with_the_standard_library() {
    let mut code: u32 = 0;
    while code <= 0x3100 {
        if let Some(c) = char::from_u32(code) {
            assert_eq!(char_is_blank(c), c.is_whitespace(), "U+{:04X}", code);
        }
        code += 1;
    }
    assert!(!char_is_blank('\u{200b}'));
    assert!(!char_is_blank('\u{feff}'));
}

#[test]
fn join_strings_puts_the_separator_between_members() {
    let parts = vec!["a".to_string(), "b".to_string(), "".to_string(), "c".to_string()];
    assert_eq!(string_of(&join_strings(&parts, " ")), "a b  c");
    assert_eq!(string_of(&join_strings(&Vec::new(), " ")), "");
    assert_eq!(string_of(&join_strings(&vec!["only".to_string()], ", ")), "only");
}
