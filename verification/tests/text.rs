use yurei::text::{
    chars_of, decimal_text, has, is_whitespace, join_words, lines, pad_right, same, split, trim,
};

fn strings(items: &[&str]) -> Vec<String> {
    items.iter().map(|s| s.to_string()).collect()
}

#[test]
fn chars_of_keeps_every_character() {
    assert_eq!(chars_of("a │ b"), vec!['a', ' ', '│', ' ', 'b']);
    assert_eq!(chars_of(""), Vec::<char>::new());
}

#[test]
fn whitespace_is_the_unicode_property() {
    for c in [' ', '\t', '\n', '\u{b}', '\u{c}', '\r', '\u{85}', '\u{a0}', '\u{1680}', '\u{2000}',
        '\u{200a}', '\u{2028}', '\u{2029}', '\u{202f}', '\u{205f}', '\u{3000}']
    {
        assert!(is_whitespace(c), "{:?}", c);
    }
    for c in ['a', '0', '│', '\u{8}', '\u{e}', '\u{200b}', '\u{feff}', '\u{1f}'] {
        assert!(!is_whitespace(c), "{:?}", c);
    }
}

#[test]
fn whitespace_agrees_with_std_on_every_character() {
    let mut n: u32 = 0;
    while n <= 0x10ffff {
        if let Some(c) = char::from_u32(n) {
            assert_eq!(is_whitespace(c), c.is_whitespace(), "{:#x}", n);
        }
        n += 1;
    }
}

#[test]
fn trim_removes_both_ends_only() {
    assert_eq!(trim("  a b \n"), "a b");
    assert_eq!(trim("\u{3000}x\u{a0}"), "x");
    assert_eq!(trim("abc"), "abc");
    assert_eq!(trim(" \t\r\n"), "");
    assert_eq!(trim(""), "");
}

#[test]
fn split_parts_at_each_delimiter() {
    assert_eq!(split("a │ b │ c", " │ "), strings(&["a", "b", "c"]));
    assert_eq!(split("abc", " │ "), strings(&["abc"]));
    assert_eq!(split("", " │ "), strings(&[""]));
    assert_eq!(split(" │ ", " │ "), strings(&["", ""]));
    assert_eq!(split("a │  │ b", " │ "), strings(&["a", "", "b"]));
}

#[test]
fn split_takes_matches_from_the_left_without_overlap() {
    assert_eq!(split("aaa", "aa"), strings(&["", "a"]));
    assert_eq!(split("x │ │ y", " │ "), strings(&["x", "│ y"]));
    assert_eq!(split("a,b,,c,", ","), strings(&["a", "b", "", "c", ""]));
}

#[test]
fn split_on_nothing_leaves_one_piece() {
    assert_eq!(split("abc", ""), strings(&["abc"]));
    assert_eq!(split("", ""), strings(&[""]));
}

#[test]
fn split_agrees_with_std() {
    for text in ["", "a", " │ a │ ", "a │ b", "  │  │  ", "│ │ │", "a │b │ c │ "] {
        let expected: Vec<String> = text.split(" │ ").map(|s| s.to_string()).collect();
        assert_eq!(split(text, " │ "), expected, "{:?}", text);
    }
}

#[test]
fn lines_end_at_line_feeds() {
    assert_eq!(lines("a\nb\n"), strings(&["a", "b"]));
    assert_eq!(lines("a\nb"), strings(&["a", "b"]));
    assert_eq!(lines("a\r\nb\r\n"), strings(&["a", "b"]));
    assert_eq!(lines("a\n\nb"), strings(&["a", "", "b"]));
    assert_eq!(lines(""), Vec::<String>::new());
    assert_eq!(lines("\n"), strings(&[""]));
}

#[test]
fn lines_keep_a_lone_carriage_return() {
    assert_eq!(lines("a\rb\n"), strings(&["a\rb"]));
    assert_eq!(lines("a\r"), strings(&["a\r"]));
    assert_eq!(lines("\r\n"), strings(&[""]));
    assert_eq!(lines("a\r\r\n"), strings(&["a\r"]));
}

#[test]
fn lines_agree_with_std() {
    for text in ["", "\n", "\n\n", "a", "a\n", "a\r\n\r\nb", "\r", "x\r\ny\rz\n\r"] {
        let expected: Vec<String> = text.lines().map(|s| s.to_string()).collect();
        assert_eq!(lines(text), expected, "{:?}", text);
    }
}

#[test]
fn has_finds_a_text_anywhere() {
    assert!(has("Stream\n", "Stream"));
    assert!(has("xxDownload", "Download"));
    assert!(!has("Strea", "Stream"));
    assert!(!has("", "Stream"));
    assert!(has("abc", ""));
    assert!(has("", ""));
}

#[test]
fn same_compares_characters() {
    assert!(same("next", "next"));
    assert!(!same("next", "next "));
    assert!(!same("next", "Next"));
    assert!(same("", ""));
}

#[test]
fn pad_right_fills_with_spaces() {
    assert_eq!(pad_right("1080p", 8), "1080p   ");
    assert_eq!(pad_right("mp4", 5), "mp4  ");
    assert_eq!(pad_right("", 3), "   ");
}

#[test]
fn pad_right_never_shortens() {
    assert_eq!(pad_right("123456789", 8), "123456789");
    assert_eq!(pad_right("12345678", 8), "12345678");
    assert_eq!(pad_right("abc", 0), "abc");
}

#[test]
fn pad_right_counts_characters_not_bytes() {
    assert_eq!(pad_right("é│", 4), "é│  ");
    assert_eq!(pad_right("é│", 4), format!("{:<4}", "é│"));
}

#[test]
fn decimal_text_writes_numbers() {
    assert_eq!(decimal_text(0), "0");
    assert_eq!(decimal_text(7), "7");
    assert_eq!(decimal_text(10), "10");
    assert_eq!(decimal_text(1080), "1080");
    assert_eq!(decimal_text(u64::MAX), "18446744073709551615");
}

#[test]
fn decimal_text_agrees_with_std() {
    for n in [1u64, 9, 11, 99, 100, 101, 4096, 1_000_000, 999_999_999_999] {
        assert_eq!(decimal_text(n), n.to_string());
    }
}

#[test]
fn join_words_puts_one_space_between() {
    assert_eq!(join_words(&strings(&["lofi", "hip", "hop"])), "lofi hip hop");
    assert_eq!(join_words(&strings(&["lofi"])), "lofi");
    assert_eq!(join_words(&strings(&[])), "");
    assert_eq!(join_words(&strings(&["", ""])), " ");
}
