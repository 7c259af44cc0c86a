use cargo_readme::text::fold_data;

#[test]
fn fold_data_empty_input() {
    let input: Vec<String> = vec![];

    let result = fold_data(input);

    assert!(result.is_empty());
}

#[test]
fn fold_data_single_line() {
    let line = "# single line";
    let input: Vec<String> = vec![line.to_owned()];

    let result = fold_data(input);

    assert_eq!(line, result);
}

#[test]
fn fold_data_multiple_lines() {
    let input: Vec<String> = vec![
        "# first line".to_owned(),
        "second line".to_owned(),
        "third line".to_owned(),
    ];

    let result = fold_data(input);

    assert_eq!("# first line\nsecond line\nthird line", result);
}
