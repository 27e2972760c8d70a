use chatty::text::{chars_of, find_char, find_seq, replace_all, rfind_char, same_text, trim};

#[test]
fn trim_removes_ascii_and_unicode_whitespace() {
    assert_eq!(trim("  hello world \n\t"), "hello world");
    assert_eq!(trim("\u{3000}\u{a0}text\u{2028}"), "text");
    assert_eq!(trim("   "), "");
    assert_eq!(trim(""), "");
    assert_eq!(trim("inner  space"), "inner  space");
}

#[test]
fn trim_agrees_with_std() {
    for s in ["\u{85}x\u{85}", " a b ", "\u{200b}zero width\u{200b}", "\r\nline\r\n", "\u{1680}"] {
        assert_eq!(trim(s), s.trim());
    }
}

#[test]
fn trim_twice_is_trim_once() {
    let once = trim("\t  spaced out  \n");
    assert_eq!(trim(&once), once);
}

#[test]
fn replace_all_replaces_every_occurrence() {
    assert_eq!(replace_all("a-b-c", "-", "+"), "a+b+c");
    assert_eq!(replace_all("MESSAGE: hi MESSAGE:", "MESSAGE:", ""), " hi ");
    assert_eq!(replace_all("aaaa", "aa", "b"), "bb");
    assert_eq!(replace_all("aaa", "aa", "b"), "ba");
    assert_eq!(replace_all("no match", "xyz", "q"), "no match");
}

#[test]
fn replace_all_agrees_with_std() {
    for (s, p, r) in [("MESSMESSAGE:AGE:", "MESSAGE:", ""), ("ééé", "é", "e"), ("abcabc", "bc", "")] {
        assert_eq!(replace_all(s, p, r), s.replace(p, r));
    }
}

#[test]
fn finding_characters_and_patterns() {
    let chars = chars_of("x{a}{b}y");
    assert_eq!(chars.len(), 8);
    assert_eq!(find_char(&chars, '{'), Some(1));
    assert_eq!(rfind_char(&chars, '}'), Some(6));
    assert_eq!(find_char(&chars, 'z'), None);
    assert_eq!(rfind_char(&chars, 'z'), None);
    assert_eq!(find_seq(&chars, &chars_of("}{")), Some(3));
    assert_eq!(find_seq(&chars, &chars_of("b}y!")), None);
    assert_eq!(find_seq(&chars, &chars_of("")), Some(0));
}

#[test]
fn chars_of_counts_characters_not_bytes() {
    assert_eq!(chars_of("héllo"), vec!['h', 'é', 'l', 'l', 'o']);
}

#[test]
fn same_text_compares_contents() {
    assert!(same_text("abc", "abc"));
    assert!(!same_text("abc", "abd"));
    assert!(!same_text("abc", "ab"));
}
