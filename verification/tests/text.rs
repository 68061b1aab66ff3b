use citeseer::text::{
    contains, ends_with, equals_str, find, find_char, is_ascii_whitespace, is_match_at,
    is_whitespace, lines, push_chars, split, starts_with, strip_prefix, strip_suffix, to_chars,
    to_string, trim, trim_end, trim_start, words,
};

fn c(s: &str) -> Vec<char> {
    s.chars().collect()
}

fn s(chars: &[char]) -> String {
    chars.iter().collect()
}

fn all(parts: Vec<&[char]>) -> Vec<String> {
    parts.into_iter().map(s).collect()
}

#[test]
fn whitespace_is_what_the_standard_library_says() {
    for code in 0..=0x10ffffu32 {
        if let Some(ch) = char::from_u32(code) {
            assert_eq!(is_whitespace(ch), ch.is_whitespace(), "U+{:04X}", code);
            assert_eq!(is_ascii_whitespace(ch), ch.is_ascii_whitespace(), "U+{:04X}", code);
        }
    }
}

#[test]
fn chars_and_strings_convert_both_ways() {
    assert_eq!(to_chars("héllo"), vec!['h', 'é', 'l', 'l', 'o']);
    assert_eq!(to_chars(""), Vec::<char>::new());
    assert_eq!(to_string(&['a', '漢']), "a漢");
    let mut out = String::from("x");
    push_chars(&mut out, &['y', 'z']);
    assert_eq!(out, "xyz");
    assert!(equals_str(&c("abc"), "abc"));
    assert!(!equals_str(&c("abc"), "abd"));
    assert!(!equals_str(&c("ab"), "abc"));
    assert!(!equals_str(&c("abc"), "ab"));
    assert!(equals_str(&[], ""));
}

#[test]
fn trimming_agrees_with_the_standard_library() {
    let samples = [
        "", " ", "a", "  a b  ", "\t\r\nx\u{a0}", "\u{3000}y\u{2003} z \u{85}", "no-space",
        " \u{feff}x ", "\u{200b} ", "\n\n",
    ];
    for text in samples {
        let chars = c(text);
        assert_eq!(s(trim(&chars)), text.trim());
        assert_eq!(s(trim_start(&chars)), text.trim_start());
        assert_eq!(s(trim_end(&chars)), text.trim_end());
    }
}

#[test]
fn affixes_agree_with_the_standard_library() {
    let samples = ["", "{", "{a}", "a}", "{{a", "a,,", "ab", "abab", "é{"];
    let affixes = ["", "{", "}", ",", "ab", "a", "é", "{a}"];
    for text in samples {
        for affix in affixes {
            let (t, a) = (c(text), c(affix));
            assert_eq!(starts_with(&t, &a), text.starts_with(affix));
            assert_eq!(ends_with(&t, &a), text.ends_with(affix));
            assert_eq!(s(strip_prefix(&t, &a)), text.strip_prefix(affix).unwrap_or(text));
            assert_eq!(s(strip_suffix(&t, &a)), text.strip_suffix(affix).unwrap_or(text));
        }
    }
}

#[test]
fn searching_agrees_with_the_standard_library() {
    let samples = ["", "a", "banana", "a and b and c", "aaa", "xéyéz", " and "];
    let needles = ["", "a", "an", "ana", " and ", "é", "z", "nab", "banana!", "aa"];
    for text in samples {
        for needle in needles {
            let (t, n) = (c(text), c(needle));
            assert_eq!(contains(&t, &n), text.contains(needle), "{:?} in {:?}", needle, text);
            let first = text.find(needle).map(|b| text[..b].chars().count());
            assert_eq!(find(&t, &n), first.unwrap_or(t.len()));
            for i in 0..t.len() + 2 {
                let here = i <= t.len() && s(&t[i..]).starts_with(needle);
                assert_eq!(is_match_at(&t, &n, i), here);
            }
        }
        for ch in ['a', 'n', 'é', ' ', 'q'] {
            let t = c(text);
            assert_eq!(find_char(&t, ch), t.iter().position(|x| *x == ch).unwrap_or(t.len()));
        }
    }
}

#[test]
fn lines_agree_with_the_standard_library() {
    let samples = [
        "", "\n", "a", "a\n", "a\nb", "a\r\nb\r\n", "a\rb", "a\r", "\r\n", "\r", "a\n\nb\n\n",
        "a\r\r\nb", "\n\r", "  x = 1\n}\n",
    ];
    for text in samples {
        let chars = c(text);
        let expected: Vec<String> = text.lines().map(|l| l.to_string()).collect();
        assert_eq!(all(lines(&chars)), expected, "{:?}", text);
    }
}

#[test]
fn splitting_agrees_with_the_standard_library() {
    let samples = ["", "a", "a and b", " and ", "a and  and b", "a and b and ", "and", "a,b,,c"];
    for text in samples {
        for sep in [" and ", ",", "and"] {
            let (t, p) = (c(text), c(sep));
            let expected: Vec<String> = text.split(sep).map(|x| x.to_string()).collect();
            assert_eq!(all(split(&t, &p)), expected, "{:?} by {:?}", text, sep);
        }
        // an empty separator leaves the text in one piece
        assert_eq!(all(split(&c(text), &[])), vec![text.to_string()]);
    }
}

#[test]
fn words_agree_with_the_standard_library() {
    let samples = ["", " ", "a", " a  b\tc\n", "x\u{a0}y z", "\u{c}f\r", "\u{b}v w"];
    for text in samples {
        let chars = c(text);
        let expected: Vec<String> =
            text.split_ascii_whitespace().map(|x| x.to_string()).collect();
        assert_eq!(all(words(&chars)), expected, "{:?}", text);
    }
}
