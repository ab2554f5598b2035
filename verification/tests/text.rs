use willow::text::{
    chars_of, appended, contains_char, contains_text, decimal_of, ends_with_char, find_from,
    is_blank, lowered_is, matches_at, replace, same_lowered, same_text, to_lower, utf8_len,
};

#[test]
fn contains_agrees_with_the_host() {
    let hays = ["", "a", "ab", "hello world", "aaa", "abcabc", "ünï cödé", "a..b", ".."];
    let needles = ["", "a", "b", "ab", "world", "aa", "aaaa", "bca", "ö", "..", "...", "cab"];
    for hay in hays {
        for needle in needles {
            assert_eq!(contains_text(hay, needle), hay.contains(needle), "{hay:?} / {needle:?}");
        }
    }
}

#[test]
fn replace_agrees_with_the_host_for_patterns_that_are_not_empty() {
    let hays = ["", "a", "aaa", "aaaa", "abcabc", "{name}.{ext}", "{{name}}", "x{name", "ünï"];
    let patterns = ["a", "aa", "abc", "{name}", "{ext}", "ï", "zzz"];
    let fillers = ["", "b", "aa", "{name}", "long filler"];
    for hay in hays {
        for from in patterns {
            for to in fillers {
                assert_eq!(replace(hay, from, to), hay.replace(from, to), "{hay:?} {from:?} {to:?}");
            }
        }
    }
}

#[test]
fn replace_takes_occurrences_from_the_left_without_overlap() {
    assert_eq!(replace("aaa", "aa", "b"), "ba");
    assert_eq!(replace("aaaa", "aa", "b"), "bb");
    assert_eq!(replace("abab", "ab", "abab"), "abababab");
}

#[test]
fn an_empty_pattern_replaces_nothing() {
    assert_eq!(replace("abc", "", "x"), "abc");
    assert_eq!(replace("", "", "x"), "");
}

#[test]
fn decimal_numerals() {
    assert_eq!(decimal_of(0), "0");
    assert_eq!(decimal_of(7), "7");
    assert_eq!(decimal_of(10), "10");
    assert_eq!(decimal_of(10_000), "10000");
    assert_eq!(decimal_of(1_234_567_890), "1234567890");
    assert_eq!(decimal_of(u32::MAX), "4294967295");
    for n in [1u32, 9, 11, 99, 100, 101, 999, 1000, 65_535, 4_000_000_000] {
        assert_eq!(decimal_of(n), n.to_string());
    }
}

#[test]
fn case_folding_is_ascii_only() {
    assert_eq!(to_lower('A'), 'a');
    assert_eq!(to_lower('Z'), 'z');
    assert_eq!(to_lower('a'), 'a');
    assert_eq!(to_lower('@'), '@');
    assert_eq!(to_lower('['), '[');
    assert_eq!(to_lower('Ä'), 'Ä');
    assert!(lowered_is("PaRt", "part"));
    assert!(!lowered_is("part", "PART"));
    assert!(!lowered_is("part", "par"));
    assert!(lowered_is("", ""));
    assert!(same_lowered("TMP", "tmp"));
    assert!(same_lowered("tMp", "TmP"));
    assert!(!same_lowered("tmp", "temp"));
    assert!(!same_lowered("Ä", "ä"));
}

#[test]
fn blank_means_nothing_but_white_space() {
    let samples = ["", " ", "\t\n\r ", "\u{a0}", "\u{2003}\u{3000}", " a ", "\u{200b}", "x", "\u{85}"];
    for s in samples {
        assert_eq!(is_blank(s), s.trim().is_empty(), "{s:?}");
    }
}

#[test]
fn small_helpers() {
    assert_eq!(chars_of("aä"), vec!['a', 'ä']);
    assert_eq!(appended("ab", "cd"), "abcd");
    assert_eq!(utf8_len("aä"), 3);
    assert_eq!(utf8_len(""), 0);
    assert!(contains_char("a\0b", '\0'));
    assert!(!contains_char("ab", '\0'));
    assert!(ends_with_char("dir/", '/'));
    assert!(!ends_with_char("dir", '/'));
    assert!(!ends_with_char("", '/'));
    assert!(same_text("abc", "abc"));
    assert!(!same_text("abc", "abd"));
    assert!(!same_text("abc", "ab"));
    let hay = chars_of("abcabc");
    let needle = chars_of("bc");
    assert!(matches_at(&hay, &needle, 1));
    assert!(!matches_at(&hay, &needle, 2));
    assert!(!matches_at(&hay, &needle, 5));
    assert!(!matches_at(&hay, &needle, 100));
    assert_eq!(find_from(&hay, &needle, 0), Some(1));
    assert_eq!(find_from(&hay, &needle, 2), Some(4));
    assert_eq!(find_from(&hay, &needle, 5), None);
    assert_eq!(find_from(&hay, &chars_of(""), 6), Some(6));
    assert_eq!(find_from(&hay, &chars_of(""), 7), None);
}
