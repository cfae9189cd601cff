use hue::directory::{listing_line_string, name_less, sort_by_name, DirEntry};
use hue::format::{decimal_string, parse_usize, push_decimal, push_padded_left, push_padded_right, push_spaces};
use hue::text::{
    char_substring, char_to_byte_index, char_utf8_width, first_non_blank, is_whitespace, split_lines,
};

fn entry(name: &str, size: u64, is_dir: bool) -> DirEntry {
    DirEntry { name: name.to_string(), size, is_dir, modified: "2023-12-31 23:59:59".to_string() }
}

#[test]
fn decimal_numbers() {
    assert_eq!(decimal_string(0), "0");
    assert_eq!(decimal_string(7), "7");
    assert_eq!(decimal_string(1234567), "1234567");
    assert_eq!(decimal_string(u64::MAX), "18446744073709551615");
    let mut s = "n=".to_string();
    push_decimal(&mut s, 40);
    assert_eq!(s, "n=40");
}

#[test]
fn padding_to_a_width() {
    let mut s = String::new();
    push_padded_left(&mut s, "ab", 5);
    assert_eq!(s, "   ab");
    push_padded_right(&mut s, "cd", 4);
    assert_eq!(s, "   abcd  ");
    let mut t = String::new();
    push_padded_left(&mut t, "long", 2);
    push_padded_right(&mut t, "中文", 3);
    assert_eq!(t, "long中文 ");
    let mut u = "x".to_string();
    push_spaces(&mut u, 3);
    assert_eq!(u, "x   ");
}

#[test]
fn parsing_counts_as_str_parse_does() {
    for s in ["42", "+7", "0", "007", "", "-1", "+", "1a", " 1", "18446744073709551616", "١"] {
        assert_eq!(parse_usize(s), s.parse::<usize>().ok(), "input {:?}", s);
    }
    assert_eq!(parse_usize("42"), Some(42));
    assert_eq!(parse_usize("+7"), Some(7));
    assert_eq!(parse_usize("-1"), None);
}

#[test]
fn character_widths_and_byte_offsets() {
    assert_eq!(char_utf8_width('a'), 1);
    assert_eq!(char_utf8_width('é'), 2);
    assert_eq!(char_utf8_width('中'), 3);
    assert_eq!(char_utf8_width('😀'), 4);
    assert_eq!(char_to_byte_index("héllo", 0), 0);
    assert_eq!(char_to_byte_index("héllo", 2), 3);
    assert_eq!(char_to_byte_index("héllo", 10), 6);
    assert_eq!(char_substring("héllo", 1, 3), "él");
    assert_eq!(char_substring("héllo", 2, 2), "");
}

#[test]
fn white_space_and_first_non_blank() {
    assert!(is_whitespace(' '));
    assert!(is_whitespace('\t'));
    assert!(is_whitespace('\u{3000}'));
    assert!(is_whitespace('\u{85}'));
    assert!(!is_whitespace('a'));
    assert!(!is_whitespace('\u{200b}'));
    for c in ['\u{a0}', '\u{2028}', '\u{180e}', 'x', '\u{1680}', '\u{feff}'] {
        assert_eq!(is_whitespace(c), c.is_whitespace(), "char {:?}", c);
    }
    assert_eq!(first_non_blank("  x"), Some(2));
    assert_eq!(first_non_blank("   "), None);
    assert_eq!(first_non_blank(""), None);
}

#[test]
fn splitting_lines_as_str_lines_does() {
    for s in ["a\r\nb\n\nc", "", "\n", "x\r", "a\n\n", "\r\n\r\n"] {
        let expected: Vec<String> = s.lines().map(|l| l.to_string()).collect();
        assert_eq!(split_lines(s), expected, "input {:?}", s);
    }
}

#[test]
fn names_order_by_characters() {
    assert!(name_less("a", "b"));
    assert!(!name_less("b", "a"));
    assert!(!name_less("ab", "a"));
    assert!(name_less("a", "ab"));
    assert!(name_less("", "a"));
    assert!(!name_less("a", "a"));
    assert!(name_less("Z", "a"));
    assert!(name_less("z", "é"));
}

#[test]
fn entries_sort_by_name_as_sort_by_does() {
    let names = ["b.txt", "a", "C", "éclair", "a.md", "_x", "10", "9"];
    let entries: Vec<DirEntry> = names.iter().map(|n| entry(n, 1, false)).collect();
    let sorted = sort_by_name(entries);
    let got: Vec<String> = sorted.iter().map(|e| e.name.clone()).collect();
    let mut expected: Vec<String> = names.iter().map(|n| n.to_string()).collect();
    expected.sort_by(|a, b| a.cmp(b));
    assert_eq!(got, expected);
    assert!(sort_by_name(Vec::new()).is_empty());
}

#[test]
fn listing_lines_align_name_and_size() {
    let file = entry("a.txt", 12, false);
    assert_eq!(
        listing_line_string(&file),
        "- a.txt                        12 2023-12-31 23:59:59"
    );
    let dir = entry("docs", 4096, true);
    assert_eq!(
        listing_line_string(&dir),
        format!("{} {:<20} {:>10} {}", "d", "docs", 4096, "2023-12-31 23:59:59")
    );
    let long = entry("a-very-long-file-name.txt", 12345678901, false);
    assert_eq!(
        listing_line_string(&long),
        format!("{} {:<20} {:>10} {}", "-", "a-very-long-file-name.txt", 12345678901u64, "2023-12-31 23:59:59")
    );
}
