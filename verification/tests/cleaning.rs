use packets::clean::{clean, clean_all, strip, BACKSLASH, QUOTE};
use packets::result_set::ResultSet;

#[test]
fn strip_removes_every_occurrence_of_one_character() {
    assert_eq!(strip("banana", 'a'), "bnn");
    assert_eq!(strip("banana", 'x'), "banana");
    assert_eq!(strip("aaaa", 'a'), "");
    assert_eq!(strip("", 'a'), "");
    assert_eq!(strip("\"a\\b\"", QUOTE), "a\\b");
    assert_eq!(strip("\"a\\b\"", BACKSLASH), "\"ab\"");
    assert_eq!(strip("é-ü-é", 'é'), "-ü-");
}

#[test]
fn clean_removes_quotes_and_backslashes_anywhere() {
    assert_eq!(clean(""), "");
    assert_eq!(clean("plain"), "plain");
    assert_eq!(clean("\"443\""), "443");
    assert_eq!(clean("a\"b\"c"), "abc");
    assert_eq!(clean("\\\\server\\share"), "servershare");
    assert_eq!(clean("\"line\\nbreak\""), "linenbreak");
    assert_eq!(clean("\"\\u00e9\""), "u00e9");
    assert_eq!(clean("\\\"\\\""), "");
    assert_eq!(clean("'single' /slash/"), "'single' /slash/");
}

#[test]
fn cleaning_twice_is_cleaning_once() {
    for s in ["", "plain", "\"443\"", "a\\\"b", "\\\\\\", "\"\"\"", "\\\"x\\\"", "日本\"語\\"] {
        let once = clean(s);
        let twice = clean(&once);
        assert_eq!(once, twice);
        assert!(!once.contains('"'));
        assert!(!once.contains('\\'));
    }
}

#[test]
fn clean_all_keeps_each_clean_form_once() {
    let values = vec![
        "\"b\"".to_string(),
        "a".to_string(),
        "\\".to_string(),
        "b".to_string(),
        "\"\"".to_string(),
        "\\a".to_string(),
    ];
    let set = clean_all(&values);
    assert_eq!(set.len(), 3);
    assert_eq!(set.into_values(), vec!["b", "a", ""]);
    assert_eq!(clean_all(&Vec::new()).len(), 0);
}

#[test]
fn a_result_set_holds_each_string_once() {
    let mut set = ResultSet::new();
    assert_eq!(set.len(), 0);
    assert!(!set.contains(&"a".to_string()));
    assert!(set.insert("a".to_string()));
    assert!(set.insert("b".to_string()));
    assert!(!set.insert("a".to_string()));
    assert!(set.insert("".to_string()));
    assert!(!set.insert("".to_string()));
    assert!(set.insert("A".to_string()));
    assert_eq!(set.len(), 4);
    assert!(set.contains(&"a".to_string()));
    assert!(set.contains(&"".to_string()));
    assert!(!set.contains(&"c".to_string()));
    assert_eq!(set.into_values(), vec!["a", "b", "", "A"]);
}
