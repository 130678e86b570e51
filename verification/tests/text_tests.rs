use orion::text::{
    chars_of, is_white_space_char, join_with, parse_usize, split_lines, trim_bounds, trim_str,
};

#[test]
fn chars_of_gives_every_character() {
    assert_eq!(chars_of("a单\n"), vec!['a', '单', '\n']);
    assert!(chars_of("").is_empty());
}

#[test]
fn white_space_is_unicode_white_space() {
    for c in ['\t', '\n', '\u{b}', '\u{c}', '\r', ' ', '\u{85}', '\u{a0}', '\u{1680}', '\u{2000}', '\u{200a}', '\u{2028}', '\u{2029}', '\u{202f}', '\u{205f}', '\u{3000}'] {
        assert!(is_white_space_char(c), "{:?}", c);
        assert!(c.is_whitespace());
    }
    for c in ['a', '\u{200b}', '\u{feff}', '单', '：', '\u{8}'] {
        assert!(!is_white_space_char(c), "{:?}", c);
        assert!(!c.is_whitespace());
    }
}

#[test]
fn trim_matches_std() {
    for s in ["", "   ", "  a b  ", "\u{3000}单词\u{a0}", "x", "\n\tx\ny\r\n"] {
        assert_eq!(trim_str(s), s.trim());
    }
}

#[test]
fn trim_bounds_are_the_trimmed_span() {
    let cs = chars_of("  ab c \n");
    assert_eq!(trim_bounds(&cs), (2, 6));
    let blank = chars_of(" \t ");
    let (a, b) = trim_bounds(&blank);
    assert_eq!(a, b);
}

#[test]
fn split_lines_matches_std() {
    for s in ["", "a", "a\nb", "a\n", "\n", "\n\na\n\nb", "apple\npear\r\nplum"] {
        let expected: Vec<String> = s.split('\n').map(|x| x.to_string()).collect();
        assert_eq!(split_lines(s), expected);
    }
}

#[test]
fn split_then_join_gives_the_text_back() {
    for s in ["", "a\nb\n", "\n\n", "one"] {
        let parts = split_lines(s);
        assert_eq!(join_with(&parts, "\n"), s);
        assert!(parts.iter().all(|p| !p.contains('\n')));
    }
}

#[test]
fn join_with_matches_std() {
    let words = vec!["apple".to_string(), "pear".to_string(), "plum".to_string()];
    assert_eq!(join_with(&words, ","), "apple,pear,plum");
    assert_eq!(join_with(&vec![], ","), "");
    assert_eq!(join_with(&vec!["one".to_string()], ","), "one");
    assert_eq!(join_with(&vec![String::new(), String::new()], ", "), ", ");
}

#[test]
fn parse_usize_matches_std() {
    let max = usize::MAX.to_string();
    let over = format!("{}0", max);
    let samples = [
        "0", "2", "+7", "0042", "", "+", "-1", "-0", " 3", "3 ", "1_000", "12a", "٣",
        max.as_str(), over.as_str(), "18446744073709551616",
    ];
    for s in samples {
        assert_eq!(parse_usize(s), s.parse::<usize>().ok(), "{:?}", s);
    }
    assert_eq!(parse_usize("+42"), Some(42));
    assert_eq!(parse_usize("-1"), None);
}

#[test]
fn trimming_twice_is_trimming_once() {
    for s in ["", "  a  ", "\u{3000}x\n", "\t\t", "a b"] {
        let once = trim_str(s);
        assert_eq!(trim_str(&once), once);
    }
}
