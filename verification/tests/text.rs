use patti_csv::text::{
    char_is_whitespace, chars_of, push_decimal, replace, starts_with, string_of, string_of_range,
    strip_terminator, trim, trim_end, trim_start, usize_to_string,
};

#[test]
fn white_space_is_what_the_standard_library_says() {
    let mut n: u32 = 0;
    while n <= 0x10FFFF {
        if let Some(c) = char::from_u32(n) {
            assert_eq!(char_is_whitespace(c), c.is_whitespace(), "U+{:04X}", n);
        }
        n += 1;
    }
}

fn samples() -> Vec<String> {
    let alphabet = ['a', 'b', ' ', '\n', '\u{2003}', 'é'];
    let mut all = vec![String::new()];
    let mut level = vec![String::new()];
    for _ in 0..5 {
        let mut next = Vec::new();
        for s in &level {
            for c in alphabet {
                let mut t = s.clone();
                t.push(c);
                next.push(t);
            }
        }
        all.extend(next.iter().cloned());
        level = next;
    }
    all
}

#[test]
fn trims_are_what_the_standard_library_says() {
    for s in samples() {
        assert_eq!(trim(&s), s.trim(), "{:?}", s);
        assert_eq!(trim_start(&s), s.trim_start(), "{:?}", s);
        assert_eq!(trim_end(&s), s.trim_end(), "{:?}", s);
    }
}

#[test]
fn replace_is_what_the_standard_library_says() {
    let patterns = ["", "a", "ab", "aa", "aba", " ", "é", "\n\n", "abab"];
    let replacements = ["", "a", "ba", "xyz", "é"];
    for s in samples() {
        for from in patterns {
            for to in replacements {
                assert_eq!(
                    replace(&s, from, to),
                    s.replace(from, to),
                    "{:?} {:?} {:?}",
                    s,
                    from,
                    to
                );
            }
        }
    }
}

#[test]
fn starts_with_is_what_the_standard_library_says() {
    let prefixes = ["", "a", "ab", " ", "é", "aé", "\n", "ba "];
    for s in samples() {
        for p in prefixes {
            assert_eq!(starts_with(&s, p), s.starts_with(p), "{:?} {:?}", s, p);
        }
    }
    assert!(starts_with("abc", "abc"));
    assert!(!starts_with("ab", "abc"));
}

#[test]
fn decimal_numerals() {
    assert_eq!(usize_to_string(0), "0");
    assert_eq!(usize_to_string(7), "7");
    assert_eq!(usize_to_string(10), "10");
    assert_eq!(usize_to_string(1234567890), "1234567890");
    assert_eq!(usize_to_string(usize::MAX), usize::MAX.to_string());
    let mut n: usize = 1;
    for _ in 0..19 {
        assert_eq!(usize_to_string(n), n.to_string());
        assert_eq!(usize_to_string(n - 1), (n - 1).to_string());
        n = n.saturating_mul(10);
    }
    let mut s = String::from("n=");
    push_decimal(&mut s, 405);
    assert_eq!(s, "n=405");
}

#[test]
fn characters_and_strings() {
    let v = chars_of("y̆es, é");
    assert_eq!(v, "y̆es, é".chars().collect::<Vec<char>>());
    assert_eq!(string_of(&v), "y̆es, é");
    assert_eq!(string_of_range(&v, 1, 4), "\u{306}es");
    assert_eq!(string_of_range(&v, 2, 2), "");
    assert!(chars_of("").is_empty());
}

#[test]
fn line_terminators() {
    assert_eq!(strip_terminator("a,b\n"), "a,b");
    assert_eq!(strip_terminator("a,b\r\n"), "a,b");
    assert_eq!(strip_terminator("a,b"), "a,b");
    assert_eq!(strip_terminator("a,b \t\n"), "a,b \t");
    assert_eq!(strip_terminator("a,b\r"), "a,b\r");
    assert_eq!(strip_terminator("a\n\n"), "a\n");
    assert_eq!(strip_terminator("a\r\r\n"), "a\r");
    assert_eq!(strip_terminator("\n"), "");
    assert_eq!(strip_terminator("\r\n"), "");
    assert_eq!(strip_terminator(""), "");
}
