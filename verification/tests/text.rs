use reconscan::names::NameSet;
use reconscan::text::{
    chars_of, decimal_text, has_char, is_white_space, split_lines, str_lt, trim,
};

fn strings(names: &[&str]) -> Vec<String> {
    names.iter().map(|n| n.to_string()).collect()
}

#[test]
fn str_lt_is_the_lexicographic_order() {
    assert!(str_lt("a", "b"));
    assert!(!str_lt("b", "a"));
    assert!(!str_lt("a", "a"));
    assert!(str_lt("", "a"));
    assert!(!str_lt("a", ""));
    assert!(!str_lt("", ""));
    assert!(str_lt("ab", "abc"));
    assert!(!str_lt("abc", "ab"));
    assert!(str_lt("abc", "abd"));
    assert!(str_lt("Z", "a"));
    assert!(str_lt("z", "é"));
    assert!(str_lt("é", "日本"));
}

#[test]
fn str_lt_agrees_with_the_order_of_strings() {
    let samples = ["", "a", "a.example.com", "b.example.com", "ab", "B", "é", "\u{10ffff}", "~"];
    for a in samples {
        for b in samples {
            assert_eq!(str_lt(a, b), a < b, "{:?} {:?}", a, b);
        }
    }
}

#[test]
fn chars_of_lists_the_characters() {
    assert_eq!(chars_of(""), Vec::<char>::new());
    assert_eq!(chars_of("a*é"), vec!['a', '*', 'é']);
}

#[test]
fn has_char_finds_a_character() {
    assert!(has_char("*.example.com", '*'));
    assert!(has_char("a.*", '*'));
    assert!(!has_char("www.example.com", '*'));
    assert!(!has_char("", '*'));
}

#[test]
fn trim_removes_white_space_at_both_ends() {
    assert_eq!(trim("  a b \t\r\n"), "a b");
    assert_eq!(trim("a"), "a");
    assert_eq!(trim(""), "");
    assert_eq!(trim(" \n\t "), "");
    assert_eq!(trim("\u{a0}é\u{2003}"), "é");
    assert_eq!(trim("x  y"), "x  y");
}

#[test]
fn white_space_is_what_the_standard_library_calls_so() {
    for code in 0..=0x10ffffu32 {
        if let Some(c) = char::from_u32(code) {
            assert_eq!(is_white_space(c), c.is_whitespace(), "U+{:04X}", code);
        }
    }
}

#[test]
fn trim_agrees_with_the_standard_library() {
    for s in ["", " ", "\u{85}a\u{205f}", "\u{200b}x\u{200b}", "\u{3000}é\u{1680}", "\u{feff}y"] {
        assert_eq!(trim(s), s.trim(), "{:?}", s);
    }
}

#[test]
fn split_lines_cuts_at_every_line_feed() {
    assert_eq!(split_lines(""), strings(&[""]));
    assert_eq!(split_lines("a"), strings(&["a"]));
    assert_eq!(split_lines("a\nb"), strings(&["a", "b"]));
    assert_eq!(split_lines("a\n"), strings(&["a", ""]));
    assert_eq!(split_lines("\na"), strings(&["", "a"]));
    assert_eq!(split_lines("\n\n"), strings(&["", "", ""]));
    assert_eq!(split_lines("é\r\nb"), strings(&["é\r", "b"]));
}

#[test]
fn decimal_text_writes_a_number() {
    assert_eq!(decimal_text(0), "0");
    assert_eq!(decimal_text(7), "7");
    assert_eq!(decimal_text(10), "10");
    assert_eq!(decimal_text(80), "80");
    assert_eq!(decimal_text(443), "443");
    assert_eq!(decimal_text(8080), "8080");
    assert_eq!(decimal_text(65535), "65535");
    for n in [1u16, 9, 99, 100, 101, 1000, 12345, 60000] {
        assert_eq!(decimal_text(n), n.to_string());
    }
}

#[test]
fn a_name_set_holds_each_name_once_in_order() {
    let mut set = NameSet::new();
    assert_eq!(set.len(), 0);
    assert!(set.insert("b".to_string()));
    assert!(set.insert("a".to_string()));
    assert!(set.insert("c".to_string()));
    assert!(!set.insert("a".to_string()));
    assert_eq!(set.len(), 3);
    assert_eq!(set.as_vec(), &strings(&["a", "b", "c"]));
    assert_eq!(set.get(0), "a");
    assert_eq!(set.get(2), "c");
    assert!(set.contains("b"));
    assert!(!set.contains("d"));
    assert!(!set.contains(""));
}

#[test]
fn a_name_set_forgets_what_is_removed() {
    let mut set = NameSet::from_names(strings(&["c", "a", "b", "a"]));
    assert_eq!(set.len(), 3);
    assert!(set.remove("b"));
    assert!(!set.remove("b"));
    assert!(!set.remove("z"));
    assert!(!set.contains("b"));
    assert_eq!(set.into_vec(), strings(&["a", "c"]));
}

#[test]
fn a_name_set_of_no_names_is_empty() {
    let mut set = NameSet::from_names(Vec::new());
    assert_eq!(set.len(), 0);
    assert!(!set.contains("a"));
    assert!(!set.remove("a"));
    assert!(set.into_vec().is_empty());
}
