use cocore_provider::text::{
    chars_of, contains, is_whitespace, lines, number_text, parse_u32, parse_u64, same, split_once, strip_end,
    strip_prefix, strip_start, strip_suffix, text_of, to_ascii_lower, trim, word,
};

const SAMPLES: [&str; 14] = [
    "",
    " ",
    "a",
    " a b ",
    "\t\u{3000}x\u{a0}\n",
    "one\ntwo\r\nthree\r",
    "\n\n",
    "\r\n",
    "a:b:c",
    ":",
    "\u{e9}\u{1f600} z",
    "//a//",
    "\"q\"",
    "no end",
];

fn joined(s: &[char]) -> String {
    s.iter().collect()
}

#[test]
fn whitespace_is_unicodes() {
    let mut c = '\0';
    loop {
        assert_eq!(is_whitespace(c), c.is_whitespace(), "{c:?}");
        if c == char::MAX {
            break;
        }
        c = (c as u32 + 1..).find_map(char::from_u32).unwrap();
    }
}

#[test]
fn text_functions_agree_with_the_standard_library() {
    for s in SAMPLES {
        let c = chars_of(s);
        assert_eq!(text_of(&c), s);
        assert_eq!(joined(trim(&c)), s.trim());
        assert_eq!(joined(strip_end(&c, '/')), s.trim_end_matches('/'));
        assert_eq!(joined(strip_start(&c, '/')), s.trim_start_matches('/'));
        assert_eq!(lines(&c).iter().map(|l| joined(l)).collect::<Vec<_>>(), s.lines().collect::<Vec<_>>());
        assert_eq!(word(&c).map(joined).as_deref(), s.split_whitespace().next());
        assert_eq!(
            split_once(&c, ':').map(|(a, b)| (joined(a), joined(b))),
            s.split_once(':').map(|(a, b)| (a.to_string(), b.to_string()))
        );
        assert_eq!(joined(&to_ascii_lower(&c)), s.to_ascii_lowercase());
        for t in SAMPLES {
            let d = chars_of(t);
            assert_eq!(contains(&c, &d), s.contains(t), "{s:?} {t:?}");
            assert_eq!(same(&c, &d), s == t);
            assert_eq!(strip_prefix(&c, t).map(joined).as_deref(), s.strip_prefix(t));
            assert_eq!(strip_suffix(&c, t).map(joined).as_deref(), s.strip_suffix(t));
        }
    }
    assert_eq!(joined(&to_ascii_lower(&chars_of("AZaz[@`{\u{c9}"))), "azaz[@`{\u{c9}");
}

#[test]
fn numbers_agree_with_the_standard_library() {
    let samples = [
        "", "0", "00", "7", "+7", "+", "-", "-0", "++1", "1+", " 1", "1 ", "a", "1a", "\u{665}",
        "4294967295", "4294967296", "18446744073709551615", "18446744073709551616",
        "99999999999999999999999", "00000000000000000000000000000001",
    ];
    for s in samples {
        let c = chars_of(s);
        assert_eq!(parse_u64(&c), s.parse::<u64>().ok(), "{s:?}");
        assert_eq!(parse_u32(&c), s.parse::<u32>().ok(), "{s:?}");
    }
}

#[test]
fn written_numbers_read_back() {
    for n in [0, 7, 10, 99, 600, 1_000_000, u64::MAX] {
        assert_eq!(number_text(n), n.to_string());
        assert_eq!(parse_u64(&chars_of(&number_text(n))), Some(n));
    }
}
