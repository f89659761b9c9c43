use moaremotes::text::{
    chars_of, clip, find_char, is_boundary, is_white_space, join_lines, len_in_bytes, lines_of,
    push_decimal, push_padded, push_spaces, split, string_of, trim,
};

#[test]
fn white_space_is_that_of_unicode() {
    for code in 0..=0x10ffffu32 {
        if let Some(c) = char::from_u32(code) {
            assert_eq!(is_white_space(c), c.is_whitespace(), "{:x}", code);
        }
    }
}

#[test]
fn trim_takes_white_space_from_both_ends() {
    let samples = [
        "",
        " ",
        "a",
        " \t a b \r\n",
        "\u{3000}x\u{a0}",
        "\u{200b}x",
        "\u{85}\u{2028}[\"é\"]\u{1680}",
    ];
    for s in samples {
        assert_eq!(trim(s), s.trim());
    }
    assert_eq!(trim("  a b  "), "a b");
}

#[test]
fn lines_are_split_as_the_standard_library_does() {
    let samples = [
        "",
        "\n",
        "a",
        "a\n",
        "a\n\n",
        "a\nb",
        "a\r\nb\r\n",
        "a\r\r\nb\r",
        "\r\n\r",
        "é\n←\n\n",
        "a\rb\nc",
    ];
    for s in samples {
        let expected: Vec<String> = s.lines().map(|line| line.to_string()).collect();
        assert_eq!(lines_of(s), expected, "{:?}", s);
    }
    assert_eq!(lines_of("a\r\n\nb"), ["a", "", "b"]);
}

#[test]
fn lines_are_joined_by_line_feeds() {
    let none: Vec<String> = vec![];
    assert_eq!(join_lines(&none), "");
    assert_eq!(join_lines(&vec!["".to_string()]), "");
    assert_eq!(
        join_lines(&vec!["a".to_string(), "".to_string(), "é".to_string()]),
        "a\n\né"
    );
}

#[test]
fn decimals_are_written_as_usual() {
    for n in [0usize, 7, 9, 10, 99, 100, 1234567890, usize::MAX] {
        let mut out = "n=".to_string();
        push_decimal(&mut out, n);
        assert_eq!(out, format!("n={}", n));
        let mut out = String::new();
        push_padded(&mut out, n, 4);
        assert_eq!(out, format!("{:4}", n));
    }
}

#[test]
fn spaces_are_written() {
    let mut out = "|".to_string();
    push_spaces(&mut out, 3);
    assert_eq!(out, "|   ");
    push_spaces(&mut out, 0);
    assert_eq!(out, "|   ");
}

#[test]
fn offsets_count_bytes() {
    assert_eq!(len_in_bytes("aé←"), 6);
    assert!(is_boundary("aé←", 0));
    assert!(is_boundary("aé←", 1));
    assert!(!is_boundary("aé←", 2));
    assert!(is_boundary("aé←", 3));
    assert!(is_boundary("aé←", 6));
    assert!(!is_boundary("aé←", 7));
    assert_eq!(split("aé←", 3), ("aé", "←"));
    assert_eq!(split("aé←", 0), ("", "aé←"));
    assert_eq!(clip("aé←", 3), "aé");
    assert_eq!(clip("aé←", 6), "aé←");
    assert_eq!(clip("aé←", 99), "aé←");
}

#[test]
fn characters_are_found_and_put_back() {
    let chars = chars_of("a\"é\"");
    assert_eq!(chars, ['a', '"', 'é', '"']);
    assert_eq!(find_char(&chars, '"', 0), Some(1));
    assert_eq!(find_char(&chars, '"', 2), Some(3));
    assert_eq!(find_char(&chars, 'x', 0), None);
    assert_eq!(find_char(&chars, 'a', 4), None);
    assert_eq!(string_of(&chars, 1, 3), "\"é");
}
