use podcast_recos::text::{contains, find, join, replace, same_text, split_trimmed, trim, trim_end, white_space};

#[test]
fn white_space_agrees_with_std_on_every_char() {
    let mut code: u32 = 0;
    while code <= 0x10FFFF {
        if let Some(c) = char::from_u32(code) {
            assert_eq!(white_space(c), c.is_whitespace(), "U+{:04X}", code);
        }
        code += 1;
    }
}

#[test]
fn trim_removes_white_space_at_both_ends() {
    assert_eq!(trim("  Alice \t\n"), "Alice");
    assert_eq!(trim("\u{3000}Bob\u{00A0}"), "Bob");
    assert_eq!(trim("a b"), "a b");
    assert_eq!(trim("   "), "");
    assert_eq!(trim(""), "");
    assert_eq!(trim(" é "), "é");
}

#[test]
fn trim_end_keeps_the_start() {
    assert_eq!(trim_end("  x  "), "  x");
    assert_eq!(trim_end(" \n"), "");
}

#[test]
fn split_trimmed_gives_one_more_piece_than_separators() {
    assert_eq!(split_trimmed("Alice, Bob", ','), vec!["Alice", "Bob"]);
    assert_eq!(split_trimmed("", ','), vec![""]);
    assert_eq!(split_trimmed(",", ','), vec!["", ""]);
    assert_eq!(split_trimmed(" a ,, b ,", ','), vec!["a", "", "b", ""]);
    assert_eq!(split_trimmed("solo", ','), vec!["solo"]);
}

#[test]
fn split_trimmed_agrees_with_std() {
    for s in ["x,y,z", " , ,", "é, ü ,ß", "a,b ,c , d", ",,,", "no comma"] {
        let expected: Vec<String> = s.split(',').map(|p| p.trim().to_string()).collect();
        assert_eq!(split_trimmed(s, ','), expected);
    }
}

#[test]
fn replace_agrees_with_std() {
    let cases = [
        ("<![CDATA[Title]]>", "<![CDATA[", ""),
        ("<![CDATA[Title]]>", "]]>", ""),
        ("aaaa", "aa", "b"),
        ("aaa", "aa", "b"),
        ("abcabc", "bc", "xyz"),
        ("abc", "", "-"),
        ("", "", "-"),
        ("", "a", "b"),
        ("a&amp;b&amp;", "&amp;", "&"),
        ("été", "é", "e"),
        ("<![CD<![CDATA[ATA[x", "<![CDATA[", ""),
        ("abc", "abcd", "x"),
    ];
    for (s, from, to) in cases {
        assert_eq!(replace(s, from, to), s.replace(from, to), "{:?} {:?} {:?}", s, from, to);
    }
}

#[test]
fn find_counts_in_characters() {
    assert_eq!(find("abc Hébergé par Acast", "Hébergé par Acast"), Some(4));
    assert_eq!(find("é Hébergé", "Hébergé"), Some(2));
    assert_eq!(find("abc", ""), Some(0));
    assert_eq!(find("", ""), Some(0));
    assert_eq!(find("abc", "d"), None);
    assert_eq!(find("abab", "ab"), Some(0));
    assert_eq!(find("xab", "ab"), Some(1));
    assert_eq!(find("ab", "abc"), None);
}

#[test]
fn contains_agrees_with_std() {
    for (s, p) in [("https://via.placeholder.com/350", "placeholder.com"), ("abc", "x"), ("", ""), ("a", "")] {
        assert_eq!(contains(s, p), s.contains(p));
    }
}

#[test]
fn join_puts_the_separator_between() {
    let parts = vec!["Alice".to_string(), "Bob".to_string(), "".to_string()];
    assert_eq!(join(&parts, ", "), "Alice, Bob, ");
    assert_eq!(join(&Vec::new(), ", "), "");
    assert_eq!(join(&vec!["x".to_string()], ", "), "x");
}

#[test]
fn same_text_compares_characters() {
    assert!(same_text("film", "film"));
    assert!(!same_text("film", "Film"));
    assert!(same_text("", ""));
}

/// A small generator of numbers, the same at every run.
fn next(state: &mut u64) -> u64 {
    *state = state.wrapping_mul(6364136223846793005).wrapping_add(1442695040888963407);
    *state >> 33
}

fn random_text(state: &mut u64, alphabet: &[char], max_len: u64) -> String {
    let len = next(state) % (max_len + 1);
    let mut text = String::new();
    for _ in 0..len {
        text.push(alphabet[(next(state) % alphabet.len() as u64) as usize]);
    }
    text
}

#[test]
fn text_functions_agree_with_std_on_many_texts() {
    let alphabet = ['a', 'b', ',', ' ', '\t', 'é', '\u{3000}', ']', '>', '<'];
    let mut state = 42u64;
    for _ in 0..3000 {
        let s = random_text(&mut state, &alphabet, 12);
        let p = random_text(&mut state, &alphabet[..4], 3);
        let t = random_text(&mut state, &alphabet, 3);
        assert_eq!(trim(&s), s.trim(), "{:?}", s);
        assert_eq!(trim_end(&s), s.trim_end(), "{:?}", s);
        let pieces: Vec<String> = s.split(',').map(|x| x.trim().to_string()).collect();
        assert_eq!(split_trimmed(&s, ','), pieces, "{:?}", s);
        assert_eq!(replace(&s, &p, &t), s.replace(p.as_str(), &t), "{:?} {:?} {:?}", s, p, t);
        let at = s.find(p.as_str()).map(|byte| s[..byte].chars().count());
        assert_eq!(find(&s, &p), at, "{:?} {:?}", s, p);
        assert_eq!(contains(&s, &p), s.contains(p.as_str()), "{:?} {:?}", s, p);
        assert_eq!(same_text(&s, &p), s == p);
    }
}

#[test]
fn join_agrees_with_std_on_many_lists() {
    let alphabet = ['a', ',', ' ', 'é'];
    let mut state = 7u64;
    for _ in 0..500 {
        let n = next(&mut state) % 5;
        let mut parts = Vec::new();
        for _ in 0..n {
            parts.push(random_text(&mut state, &alphabet, 4));
        }
        let sep = random_text(&mut state, &alphabet, 2);
        assert_eq!(join(&parts, &sep), parts.join(&sep));
    }
}
