use cosmic_applet_dns::text::{
    contains_char, equal_but_case, get_line, is_white, join, split, split_at_first, split_items,
    split_lines, split_words, trim, unescape,
};

const SAMPLES: [&str; 16] = [
    "",
    " ",
    "a",
    "  a b  ",
    "\t1.1.1.1\r\n",
    "a\nb\n",
    "a\r\nb\r",
    "\n\n",
    "a,b, c;;d ",
    "fe80\\:\\:1",
    "\\\\::\\",
    "\u{a0}x\u{3000}y\u{2009}",
    "ünïcödé\u{85}ß",
    "Link 5 (hk-office): 192.168.4.1",
    "default via 192.168.1.1 dev enp5s0 proto dhcp",
    "::\\:a\\:\\:",
];

#[test]
fn white_space_is_that_of_the_standard_library() {
    let mut n = 0;
    for code in 0..=0x10ffffu32 {
        if let Some(c) = char::from_u32(code) {
            assert_eq!(is_white(c), c.is_whitespace(), "U+{:04X}", code);
            n += 1;
        }
    }
    assert_eq!(n, 0x110000 - 0x800);
}

#[test]
fn trimming_agrees_with_the_standard_library() {
    for s in SAMPLES {
        assert_eq!(trim(s), s.trim(), "{:?}", s);
    }
}

#[test]
fn splitting_agrees_with_the_standard_library() {
    for s in SAMPLES {
        assert_eq!(split(s, &[',', ' ', ';']), s.split([',', ' ', ';']).collect::<Vec<_>>());
        assert_eq!(split_words(s), s.split_whitespace().collect::<Vec<_>>());
        assert_eq!(split_lines(s), s.lines().collect::<Vec<_>>());
    }
}

#[test]
fn items_are_trimmed_and_not_empty() {
    assert_eq!(split_items(" a,, \tb ;c", &[',', ';']), vec!["a", "b", "c"]);
    assert_eq!(split_items(" , ;", &[',', ';']), Vec::<String>::new());
}

#[test]
fn a_missing_line_is_empty() {
    let lines = split_lines("one\ntwo");
    assert_eq!(get_line(&lines, 1), "two");
    assert_eq!(get_line(&lines, 2), "");
}

#[test]
fn joining_agrees_with_the_standard_library() {
    let lists = [vec![], vec!["a"], vec!["a", "b"], vec!["", "x", ""]];
    for list in lists {
        let list: Vec<String> = list.iter().map(|s| s.to_string()).collect();
        assert_eq!(join(&list, ", "), list.join(", "));
    }
}

#[test]
fn unescaping_replaces_escaped_colons() {
    for s in SAMPLES {
        assert_eq!(unescape(s), s.replace("\\:", ":"), "{:?}", s);
    }
    assert_eq!(unescape("2606\\:4700\\:\\:1111"), "2606:4700::1111");
}

#[test]
fn splitting_at_the_first_character_agrees_with_the_standard_library() {
    for s in SAMPLES {
        let expected = s.split_once(':').map(|(a, b)| (a.to_string(), b.to_string()));
        assert_eq!(split_at_first(s, ':'), expected);
    }
}

#[test]
fn case_is_ignored_in_ascii_only() {
    assert!(equal_but_case("GloBal", "global"));
    assert!(!equal_but_case("globa", "global"));
    assert!(!equal_but_case("\u{c4}", "\u{e4}"));
    for s in SAMPLES {
        assert!(equal_but_case(s, &s.to_ascii_uppercase()));
        assert_eq!(contains_char(s, ':'), s.contains(':'));
    }
}
