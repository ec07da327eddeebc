use char_predict::decode::{decode_predictions, render_predictions};

fn table() -> Vec<String> {
    vec![" ", "a", "b", "c"].into_iter().map(String::from).collect()
}

#[test]
fn rows_are_spelled_out() {
    let r = decode_predictions(&vec![1, 2, 3, 3, 2, 1], 2, &table()).unwrap();
    assert_eq!(r, vec!["abc".to_string(), "cba".to_string()]);
}

#[test]
fn no_rows() {
    assert_eq!(decode_predictions(&Vec::new(), 0, &table()), Some(Vec::new()));
}

#[test]
fn wrong_count_is_rejected() {
    assert_eq!(decode_predictions(&vec![1, 2, 3, 1], 1, &table()), None);
    assert_eq!(decode_predictions(&vec![1, 2, 3], 2, &table()), None);
    assert_eq!(decode_predictions(&vec![1, 2], 1, &table()), None);
}

#[test]
fn code_outside_table_is_rejected() {
    assert_eq!(decode_predictions(&vec![1, 2, 4], 1, &table()), None);
    assert_eq!(decode_predictions(&vec![1, -1, 2], 1, &table()), None);
}

#[test]
fn predictions_are_written_one_per_line() {
    let text = render_predictions(&vec!["abc".to_string(), "xyz".to_string()]);
    assert_eq!(text, "abc\nxyz\n");
    assert_eq!(render_predictions(&Vec::new()), "");
}
