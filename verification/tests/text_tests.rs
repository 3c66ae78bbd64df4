use serial_plotter::table::TextMap;
use serial_plotter::text::{chars_of, find_in, frame_command, is_white_space, split_once, trim};

#[test]
fn trim_removes_unicode_whitespace_at_both_ends() {
    assert_eq!(trim("  temp=21.5\r\n"), "temp=21.5");
    assert_eq!(trim("\t\u{a0}a b\u{3000}"), "a b");
    assert_eq!(trim("   "), "");
    assert_eq!(trim(""), "");
    assert_eq!(trim("x"), "x");
    for s in ["  a ", "\u{2028}b\u{85}", "c d", " \u{200a}\u{1680} e\t"] {
        assert_eq!(trim(s), s.trim());
    }
}

#[test]
fn whitespace_matches_std() {
    for u in 0u32..0x3100 {
        if let Some(c) = char::from_u32(u) {
            assert_eq!(is_white_space(c), c.is_whitespace(), "char {:x}", u);
        }
    }
}

#[test]
fn split_once_splits_at_first_occurrence() {
    assert_eq!(
        split_once("temp=21.5 temp=3", "temp="),
        Some(("".to_string(), "21.5 temp=3".to_string()))
    );
    assert_eq!(split_once("a:b:c", ":"), Some(("a".to_string(), "b:c".to_string())));
    assert_eq!(split_once("abc", "x"), None);
    assert_eq!(split_once("abc", ""), Some(("".to_string(), "abc".to_string())));
    assert_eq!(split_once("ab", "abc"), None);
    assert_eq!(split_once("°C=5", "C="), Some(("°".to_string(), "5".to_string())));
    for (s, k) in [("x=1,y=2", "y="), ("aaa", "aa"), ("ä=ö", "=")] {
        let expected = s.split_once(k).map(|(a, b)| (a.to_string(), b.to_string()));
        assert_eq!(split_once(s, k), expected);
    }
}

#[test]
fn find_in_gives_first_index() {
    let s = chars_of("abcabc");
    assert_eq!(find_in(&s, &chars_of("bc")), Some(1));
    assert_eq!(find_in(&s, &chars_of("cb")), None);
    assert_eq!(find_in(&s, &chars_of("")), Some(0));
}

#[test]
fn frame_command_appends_crlf() {
    assert_eq!(frame_command("get temp"), "get temp\r\n");
    assert_eq!(frame_command(""), "\r\n");
}

#[test]
fn text_map_keeps_one_value_per_key() {
    let mut m = TextMap::new();
    assert!(m.is_empty());
    m.insert("a".to_string(), "1".to_string());
    m.insert("b".to_string(), "2".to_string());
    m.insert("a".to_string(), "3".to_string());
    assert_eq!(m.len(), 2);
    assert_eq!(m.get(&"a".to_string()).map(|s| s.as_str()), Some("3"));
    assert!(m.contains_key(&"b".to_string()));
    assert!(!m.contains_key(&"c".to_string()));
    let copy = m.clone();
    assert_eq!(copy.get(&"b".to_string()).map(|s| s.as_str()), Some("2"));
    let built = TextMap::from_pairs(vec![
        ("k".to_string(), "x".to_string()),
        ("k".to_string(), "y".to_string()),
    ]);
    assert_eq!(built.len(), 1);
    assert_eq!(built.get(&"k".to_string()).map(|s| s.as_str()), Some("y"));
    assert_eq!(built.to_pairs(), vec![("k".to_string(), "y".to_string())]);
}

#[test]
fn sorted_keys_lists_each_key_in_ascending_order() {
    let mut m = TextMap::new();
    for k in ["VOLT", "FAN_SPEED", "b", "B", "ä", "FAN"] {
        m.insert(k.to_string(), "v".to_string());
    }
    m.insert("b".to_string(), "w".to_string());
    assert_eq!(m.sorted_keys(), vec!["B", "FAN", "FAN_SPEED", "VOLT", "b", "ä"]);
    assert!(TextMap::new().sorted_keys().is_empty());
}
