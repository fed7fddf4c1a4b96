use ovft_core::text::{
    char_is_whitespace, find_chars, is_text_less, join_strings, parse_comma_list, parse_u32,
    replace_all, split_chars, split_lines, to_chars, trim, u32_to_chars, u64_to_chars,
    with_spaces,
};

fn chars(text: &str) -> Vec<char> {
    text.chars().collect()
}

fn samples() -> Vec<&'static str> {
    vec![
        "",
        " ",
        "a",
        "  a b  ",
        "\t\r\n x \u{a0}\u{2003}",
        "\u{3000}wide\u{3000}",
        "\u{200b}zero width",
        "a\nb",
        "a\r\nb\r\n",
        "a\n\nb\n",
        "\n",
        "\r",
        "a\r",
        "\r\n\r\n",
        "tail\n\r",
        "x\r\r\ny",
        "ä,ö;ü",
        "a,b,,c",
        ",",
        "id=\"item-a\" id=\"item-b\"",
        "aaa",
        "~~~",
        "needs coverage by impl",
    ]
}

#[test]
fn white_space_is_what_the_standard_library_says() {
    for code in 0..=0x10ffffu32 {
        if let Some(c) = char::from_u32(code) {
            assert_eq!(char_is_whitespace(c), c.is_whitespace(), "U+{:04X}", code);
        }
    }
}

#[test]
fn trimming_agrees_with_the_standard_library() {
    for text in samples() {
        assert_eq!(trim(text), text.trim(), "{:?}", text);
    }
}

#[test]
fn lines_agree_with_the_standard_library() {
    for text in samples() {
        let expected: Vec<String> = text.lines().map(String::from).collect();
        assert_eq!(split_lines(text), expected, "{:?}", text);
    }
    assert_eq!(split_lines("a\r\nb\n\nc"), vec!["a", "b", "", "c"]);
    assert!(split_lines("").is_empty());
}

#[test]
fn splitting_agrees_with_the_standard_library() {
    for text in samples() {
        for separator in [',', '~', '\n', ';'] {
            let expected: Vec<Vec<char>> = text.split(separator).map(chars).collect();
            assert_eq!(split_chars(&chars(text), separator), expected, "{:?}", text);
        }
        assert_eq!(to_chars(text), chars(text));
    }
    assert_eq!(split_chars(&chars("a~b~1"), '~'), vec![chars("a"), chars("b"), chars("1")]);
    assert_eq!(split_chars(&chars(""), '~'), vec![chars("")]);
    assert_eq!(parse_comma_list(" a, b ,,c "), vec!["a", "b", "c"]);
}

#[test]
fn replacing_agrees_with_the_standard_library() {
    for text in samples() {
        for (from, to) in [("a", "bb"), ("aa", "a"), ("id=\"item-", "id=\"item_"), ("~", "_"), ("\n", "")] {
            assert_eq!(replace_all(text, from, to), text.replace(from, to), "{:?}", text);
        }
        assert_eq!(replace_all(text, "", "x"), text);
        assert_eq!(with_spaces(text), text.replace('-', " ").replace('_', " "));
    }
    assert_eq!(with_spaces("a-b_c d"), "a b c d");
}

#[test]
fn finding_agrees_with_the_standard_library() {
    for text in samples() {
        for needle in ["a", "aa", "b\r", "item-", "", "needs coverage by", "ö"] {
            let expected = text.find(needle).map(|at| text[..at].chars().count());
            assert_eq!(find_chars(&chars(text), &chars(needle)), expected, "{:?}", text);
        }
    }
}

#[test]
fn order_of_strings_agrees_with_the_standard_library() {
    let texts = samples();
    for a in &texts {
        for b in &texts {
            assert_eq!(is_text_less(&a.to_string(), &b.to_string()), a < b, "{:?} {:?}", a, b);
        }
    }
    assert!(is_text_less(&"req~a~1".to_string(), &"req~a~10".to_string()));
    assert!(!is_text_less(&"b".to_string(), &"a".to_string()));
    assert!(!is_text_less(&"a".to_string(), &"a".to_string()));
}

#[test]
fn numbers_agree_with_the_standard_library() {
    for text in [
        "0", "1", "007", "+5", "+", "", "-1", "4294967295", "4294967296", "99999999999999999999",
        "12a", " 1", "1 ", "++1", "+-1", "1_000", "٣", "1.0",
    ] {
        assert_eq!(parse_u32(&chars(text)), text.parse::<u32>().ok(), "{:?}", text);
    }
    for number in [0u32, 1, 9, 10, 99, 100, 12345, 4294967295] {
        assert_eq!(u32_to_chars(number), chars(&number.to_string()));
        assert_eq!(parse_u32(&u32_to_chars(number)), Some(number));
    }
    for number in [0u64, 7, 4294967296, 18446744073709551615] {
        assert_eq!(u64_to_chars(number), chars(&number.to_string()));
    }
}

#[test]
fn joining_puts_the_separator_between() {
    let parts = vec!["a".to_string(), "".to_string(), "b".to_string()];
    assert_eq!(join_strings(&parts, ", "), "a, , b");
    assert_eq!(join_strings(&parts[..1].to_vec(), "; "), "a");
    assert_eq!(join_strings(&Vec::new(), "; "), "");
}
