use fleetwatch::text::{
    chars_of, contains, eq_ignore_ascii_case, is_whitespace, remove_char, same_text, second_piece,
    split_char, split_lines, split_once, split_whitespace, strip_prefix, trim,
};

const SAMPLES: [&str; 22] = [
    "",
    " ",
    "a",
    "  a  ",
    "\ta b\n",
    "a\nb",
    "a\nb\n",
    "a\r\nb\r\n",
    "a\r",
    "a\r\n\r\nb\r",
    "\n",
    "\n\n",
    "\r\n",
    "one two  three\tfour\nfive",
    "\u{a0}x\u{2003}y\u{3000}",
    "\u{85}z\u{1680}",
    "a\u{200b}b",
    "Mach Virtual Memory Statistics: (page size of 16384 bytes)",
    "Pages active:                            123456.",
    "x:y:z",
    ":",
    "päge sïze öf 42",
];

#[test]
fn whitespace_is_what_char_says() {
    let mut code: u32 = 0;
    while code <= 0x3100 {
        if let Some(c) = char::from_u32(code) {
            assert_eq!(is_whitespace(c), c.is_whitespace(), "U+{:04X}", code);
        }
        code += 1;
    }
    assert!(!is_whitespace('\u{feff}'));
    assert!(!is_whitespace('\u{10ffff}'));
}

#[test]
fn chars_are_kept_in_order() {
    for s in SAMPLES {
        let expected: Vec<char> = s.chars().collect();
        assert_eq!(chars_of(s), expected);
    }
}

#[test]
fn trim_is_str_trim() {
    for s in SAMPLES {
        assert_eq!(trim(s), s.trim().to_string(), "{:?}", s);
    }
    assert_eq!(trim("  Linux \n"), "Linux");
    assert_eq!(trim(" \t\n "), "");
}

#[test]
fn words_are_split_whitespace() {
    for s in SAMPLES {
        let expected: Vec<String> = s.split_whitespace().map(|w| w.to_string()).collect();
        assert_eq!(split_whitespace(s), expected, "{:?}", s);
    }
    assert_eq!(split_whitespace(" 7977   3816\n"), vec!["7977".to_string(), "3816".to_string()]);
    assert!(split_whitespace("   ").is_empty());
}

#[test]
fn lines_are_str_lines() {
    for s in SAMPLES {
        let expected: Vec<String> = s.lines().map(|l| l.to_string()).collect();
        assert_eq!(split_lines(s), expected, "{:?}", s);
    }
    assert_eq!(split_lines("a\r\nb"), vec!["a".to_string(), "b".to_string()]);
    assert_eq!(split_lines("a\r"), vec!["a\r".to_string()]);
    assert!(split_lines("").is_empty());
}

#[test]
fn pieces_are_str_split() {
    for s in SAMPLES {
        for sep in [',', ':', ' ', '\n'] {
            let expected: Vec<String> = s.split(sep).map(|p| p.to_string()).collect();
            assert_eq!(split_char(s, sep), expected, "{:?} at {:?}", s, sep);
        }
    }
    assert_eq!(split_char("", ','), vec!["".to_string()]);
    assert_eq!(
        split_char("a,,b,", ','),
        vec!["a".to_string(), "".to_string(), "b".to_string(), "".to_string()]
    );
}

#[test]
fn contains_is_str_contains() {
    for s in SAMPLES {
        for pat in ["page size of", "VRAM", ":", "a", "ab", "\r\n", "two  three"] {
            assert_eq!(contains(s, pat), s.contains(pat), "{:?} in {:?}", pat, s);
        }
    }
    assert!(contains("aab", "ab"));
    assert!(!contains("ab", "abc"));
}

#[test]
fn second_piece_is_second_of_split() {
    for s in SAMPLES {
        for pat in ["page size of", ":", "a", "zoneinfo/", " "] {
            let expected = s.split(pat).nth(1).map(|p| p.to_string());
            assert_eq!(second_piece(s, pat), expected, "{:?} in {:?}", pat, s);
        }
    }
    assert_eq!(
        second_piece("/var/db/timezone/zoneinfo/Asia/Tokyo", "zoneinfo/"),
        Some("Asia/Tokyo".to_string())
    );
    assert_eq!(second_piece("a--b--c", "--"), Some("b".to_string()));
    assert_eq!(second_piece("abc", "--"), None);
}

#[test]
fn prefix_is_stripped_as_str_does() {
    for s in SAMPLES {
        for pat in ["a", "Pages", "x:", " ", ""] {
            let expected = s.strip_prefix(pat).map(|p| p.to_string());
            assert_eq!(strip_prefix(s, pat), expected, "{:?} from {:?}", pat, s);
        }
    }
    assert_eq!(
        strip_prefix("Chipset Model: Apple M1", "Chipset Model:"),
        Some(" Apple M1".to_string())
    );
}

#[test]
fn cut_is_split_once() {
    for s in SAMPLES {
        for sep in [':', ' ', 'a'] {
            let expected = s.split_once(sep).map(|(a, b)| (a.to_string(), b.to_string()));
            assert_eq!(split_once(s, sep), expected, "{:?} at {:?}", s, sep);
        }
    }
    assert_eq!(split_once("k: v: w", ':'), Some(("k".to_string(), " v: w".to_string())));
}

#[test]
fn char_is_removed_everywhere() {
    for s in SAMPLES {
        for c in ['.', ',', 'a', ' '] {
            let expected: Vec<char> = s.replace(c, "").chars().collect();
            assert_eq!(remove_char(s, c), expected, "{:?} without {:?}", s, c);
        }
    }
    assert_eq!(remove_char("1,024", ','), vec!['1', '0', '2', '4']);
}

#[test]
fn case_is_ignored_for_ascii_only() {
    let words = ["GB", "gb", "Gb", "gB", "MB", "G", "GBB", "", "ÄB", "äB", "inf", "INF", "NaN"];
    for a in words {
        for b in words {
            assert_eq!(eq_ignore_ascii_case(a, b), a.eq_ignore_ascii_case(b), "{:?} {:?}", a, b);
        }
    }
}

#[test]
fn same_text_compares_characters() {
    assert!(same_text("Linux", "Linux"));
    assert!(!same_text("Linux", "linux"));
    assert!(!same_text("Linux", "Linux "));
    assert!(same_text("", ""));
}
