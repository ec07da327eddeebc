use char_predict::vocab::{load_vocab, Vocab, VocabError};

#[test]
fn loads_inverse_table() {
    let v = load_vocab(r#"{" ": 0, "a": 2, "b": 1}"#).unwrap();
    assert_eq!(v.len(), 3);
    assert_eq!(v.index_to_char(), &vec![" ".to_string(), "b".to_string(), "a".to_string()]);
    assert_eq!(v.pad_token(), Some(0));
    assert_eq!(v.char_index('a'), Some(2));
    assert_eq!(v.char_index('z'), None);
    assert_eq!(v.get("b"), Some(1));
    assert_eq!(v.get("bb"), None);
}

#[test]
fn entries_come_in_key_order() {
    let v = load_vocab(r#"{"b": 0, "a": 1}"#).unwrap();
    assert_eq!(v.entries(), &vec![("a".to_string(), 1), ("b".to_string(), 0)]);
}

#[test]
fn multi_character_keys_are_kept() {
    let v = load_vocab(r#"{"ab": 0, "c": 1}"#).unwrap();
    assert_eq!(v.get("ab"), Some(0));
    assert_eq!(v.char_index('a'), None);
    assert_eq!(v.index_to_char()[0], "ab");
}

#[test]
fn missing_pad_is_reported() {
    let v = load_vocab(r#"{"a": 0}"#).unwrap();
    assert_eq!(v.pad_token(), None);
}

#[test]
fn empty_object_gives_empty_vocab() {
    let v = load_vocab("{}").unwrap();
    assert_eq!(v.len(), 0);
    assert!(v.index_to_char().is_empty());
}

#[test]
fn invalid_json_is_rejected() {
    assert!(matches!(load_vocab("{\"a\": "), Err(VocabError::Json(_))));
    assert!(matches!(load_vocab("[1, 2]"), Err(VocabError::Json(_))));
    assert!(matches!(load_vocab(r#"{"a": "x"}"#), Err(VocabError::Json(_))));
}

#[test]
fn index_out_of_range_is_rejected() {
    assert!(matches!(load_vocab(r#"{"a": 0, "b": 2}"#), Err(VocabError::IndexOutOfRange(2))));
    assert!(matches!(load_vocab(r#"{"a": -1}"#), Err(VocabError::IndexOutOfRange(-1))));
}

#[test]
fn shared_index_keeps_last_entry() {
    let v = Vocab::from_entries(vec![("x".to_string(), 1), ("y".to_string(), 1)]).unwrap();
    assert_eq!(v.index_to_char(), &vec!["".to_string(), "y".to_string()]);
}

#[test]
fn duplicate_key_in_json_keeps_later_value() {
    let v = load_vocab(r#"{"a": 0, "a": 1, "b": 0}"#).unwrap();
    assert_eq!(v.len(), 2);
    assert_eq!(v.get("a"), Some(1));
    assert_eq!(v.index_to_char(), &vec!["b".to_string(), "a".to_string()]);
}

#[test]
fn table_inverts_lookup() {
    let v = load_vocab(r#"{" ": 3, "a": 0, "b": 1, "c": 2}"#).unwrap();
    for (k, i) in v.entries() {
        assert_eq!(&v.index_to_char()[*i as usize], k);
        assert_eq!(v.get(k), Some(*i));
    }
}
