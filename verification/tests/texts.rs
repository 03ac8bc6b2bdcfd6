use ash::paths::{name_of, paths_equal};
use ash::text::{
    contains, join, number, replace, split_char, split_lines, split_once, split_words, starts_with,
    trim, trim_end, trim_end_char,
};

#[test]
fn texts_are_searched() {
    assert!(contains("a / btrfs b", " / btrfs"));
    assert!(contains("abc", ""));
    assert!(!contains("ab", "abc"));
    assert!(starts_with("date: x", "date:"));
    assert!(!starts_with("Xdate:", "date:"));
    assert_eq!(split_once("a::b::c", "::"), Some(("a".to_string(), "b::c".to_string())));
    assert_eq!(split_once("a:b", "::"), None);
    assert_eq!(replace("aaa", "aa", "b"), "ba");
    assert_eq!(replace("x y x", "x", ""), " y ");
}

#[test]
fn texts_are_trimmed_as_the_standard_library_does() {
    for text in ["", " ", "\t a b \r\n", "\u{a0}x\u{2003}", "\u{200b}y\u{200b}", "\u{85}z\u{3000}"] {
        assert_eq!(trim(text), text.trim());
        assert_eq!(trim_end(text), text.trim_end());
    }
    assert_eq!(trim_end_char("usr//", '/'), "usr");
}

#[test]
fn every_white_space_is_known() {
    for n in 0..=0x10ffffu32 {
        if let Some(c) = char::from_u32(n) {
            let blank = c.is_whitespace();
            if blank || n % 0x40 == 0 {
                assert_eq!(trim(&c.to_string()).is_empty(), blank);
            }
        }
    }
}

#[test]
fn texts_are_split_as_the_standard_library_does() {
    for text in ["", "a", "a\nb", "a\n", "\n\n", "a\r\nb\r", "\r\n"] {
        assert_eq!(split_lines(text), text.lines().collect::<Vec<_>>());
    }
    for text in ["", ",", "a,b,,c", ",a,"] {
        assert_eq!(split_char(text, ','), text.split(',').collect::<Vec<_>>());
    }
    for text in ["", "  ", " a  b\tc ", "x"] {
        assert_eq!(split_words(text), text.split_whitespace().collect::<Vec<_>>());
    }
    assert_eq!(join(&vec![], ", "), "");
    assert_eq!(join(&vec!["a".to_string(), "b".to_string()], ", "), "a, b");
}

#[test]
fn numbers_are_written_out() {
    for n in [0, 7, 10, 42, 1000, -1, -90, i32::MAX, i32::MIN] {
        assert_eq!(number(n), n.to_string());
    }
}

#[test]
fn paths_are_compared_as_the_standard_library_does() {
    let paths = ["", "/", ".", "..", "a", "./a", "a/", "a//b", "a/./b", "a/b", "/a", "/./a", "/a/..", "a/b/."];
    for a in paths {
        for b in paths {
            let same = std::path::Path::new(a) == std::path::Path::new(b);
            assert_eq!(paths_equal(a, b), same, "{:?} {:?}", a, b);
        }
        let name = std::path::Path::new(a).file_name().map(|n| n.to_str().unwrap().to_string());
        assert_eq!(name_of(a), name, "{:?}", a);
    }
}
