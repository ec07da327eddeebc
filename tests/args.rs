use char_predict::args::parse_args;

fn argv(words: &[&str]) -> Vec<String> {
    words.iter().map(|w| w.to_string()).collect()
}

#[test]
fn defaults_without_arguments() {
    let a = parse_args(&argv(&["predict"]));
    assert_eq!(a.work_dir, "work");
    assert_eq!(a.test_data, "test/input.txt");
    assert_eq!(a.test_output, "pred.txt");
    assert!(!a.time);
    assert!(!a.torchscript);
    assert!(a.unknown.is_empty());
}

#[test]
fn all_options_are_read() {
    let a = parse_args(&argv(&[
        "predict",
        "--work_dir",
        "models",
        "--test_data",
        "in.txt",
        "--test_output",
        "out.txt",
        "--time",
        "--torchscript",
    ]));
    assert_eq!(a.work_dir, "models");
    assert_eq!(a.test_data, "in.txt");
    assert_eq!(a.test_output, "out.txt");
    assert!(a.time);
    assert!(a.torchscript);
    assert!(a.unknown.is_empty());
}

#[test]
fn option_without_value_is_skipped() {
    let a = parse_args(&argv(&["predict", "--time", "--work_dir"]));
    assert_eq!(a.work_dir, "work");
    assert!(a.time);
    assert!(a.unknown.is_empty());
}

#[test]
fn unknown_arguments_are_recorded() {
    let a = parse_args(&argv(&["predict", "--verbose", "--time", "extra"]));
    assert_eq!(a.unknown, vec!["--verbose".to_string(), "extra".to_string()]);
    assert!(a.time);
}

#[test]
fn later_value_wins() {
    let a = parse_args(&argv(&["predict", "--work_dir", "a", "--work_dir", "b"]));
    assert_eq!(a.work_dir, "b");
}

#[test]
fn option_value_may_look_like_an_option() {
    let a = parse_args(&argv(&["predict", "--test_output", "--time"]));
    assert_eq!(a.test_output, "--time");
    assert!(!a.time);
}

#[test]
fn model_and_vocab_paths() {
    let mut a = parse_args(&argv(&["predict", "--work_dir", "w"]));
    assert_eq!(a.model_path(), "w/character_transformer.pt");
    assert_eq!(a.vocab_path(), "w/char_to_index.json");
    a.torchscript = true;
    assert_eq!(a.model_path(), "w/character_transformer_script.pt");
}
