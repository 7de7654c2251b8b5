use jsonl_tail::text::{char_is_space, line_is_blank, split_lines};

fn std_lines(text: &str) -> Vec<String> {
    text.lines().map(|line| line.to_string()).collect()
}

#[test]
fn splits_at_line_feeds() {
    assert_eq!(split_lines("a\nb\nc\n"), vec!["a", "b", "c"]);
}

#[test]
fn empty_text_has_no_lines() {
    assert_eq!(split_lines(""), Vec::<String>::new());
}

#[test]
fn single_line_feed_is_one_empty_line() {
    assert_eq!(split_lines("\n"), vec![""]);
}

#[test]
fn keeps_empty_lines_between_records() {
    assert_eq!(split_lines("a\n\n\nb\n"), vec!["a", "", "", "b"]);
}

#[test]
fn last_line_needs_no_line_feed() {
    assert_eq!(split_lines("a\nb"), vec!["a", "b"]);
}

#[test]
fn carriage_return_before_line_feed_is_dropped() {
    assert_eq!(split_lines("a\r\nb\r\n"), vec!["a", "b"]);
}

#[test]
fn only_one_carriage_return_is_dropped() {
    assert_eq!(split_lines("a\r\r\nb"), vec!["a\r", "b"]);
}

#[test]
fn carriage_return_inside_a_line_stays() {
    assert_eq!(split_lines("a\rb\n"), vec!["a\rb"]);
}

#[test]
fn unterminated_last_line_keeps_its_carriage_return() {
    assert_eq!(split_lines("a\nb\r"), vec!["a", "b\r"]);
}

#[test]
fn lone_carriage_return_is_a_line() {
    assert_eq!(split_lines("\r"), vec!["\r"]);
    assert_eq!(split_lines("\r\n"), vec![""]);
}

#[test]
fn splits_text_beyond_ascii() {
    assert_eq!(split_lines("grüße\n日本語\r\n🙂"), vec!["grüße", "日本語", "🙂"]);
}

#[test]
fn splitting_agrees_with_std() {
    let samples = [
        "",
        "\n",
        "\n\n",
        "a",
        "a\n",
        "a\nb",
        "a\r\nb\r\n",
        "a\r",
        "a\r\r\n",
        "\r\r",
        "\r\n\r\n",
        "x\n\r\ny\r",
        " \t \n{\"k\":1}\n",
        "é\r\nü\n",
    ];
    for sample in samples {
        assert_eq!(split_lines(sample), std_lines(sample), "{:?}", sample);
    }
}

#[test]
fn empty_line_is_blank() {
    assert!(line_is_blank(""));
}

#[test]
fn spaces_and_tabs_are_blank() {
    assert!(line_is_blank(" \t \r"));
}

#[test]
fn text_is_not_blank() {
    assert!(!line_is_blank("  x  "));
    assert!(!line_is_blank("{}"));
}

#[test]
fn wide_spaces_are_blank() {
    assert!(line_is_blank("\u{a0}\u{2003}\u{3000}\u{85}\u{1680}\u{2028}\u{2029}\u{202f}\u{205f}"));
}

#[test]
fn zero_width_space_is_not_blank() {
    assert!(!line_is_blank("\u{200b}"));
    assert!(!line_is_blank("\u{feff}"));
}

#[test]
fn blankness_agrees_with_trim() {
    let samples = ["", " ", "\t\n", "a", " a ", "\u{a0}", "\u{200b}", "\u{1c}", "\u{0b}\u{0c}"];
    for sample in samples {
        assert_eq!(line_is_blank(sample), sample.trim().is_empty(), "{:?}", sample);
    }
}

#[test]
fn white_space_agrees_with_std_on_every_char() {
    let mut code: u32 = 0;
    while code <= 0x10ffff {
        if let Some(c) = char::from_u32(code) {
            assert_eq!(char_is_space(c), c.is_whitespace(), "U+{:04X}", code);
        }
        code += 1;
    }
}
