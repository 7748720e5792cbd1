use rtab::{parse_records, tabulate, RenderOptions, Style};

#[test]
fn parse_two_by_two() {
    let data = b"a,bb\ncc,d".to_vec();
    let records = parse_records(&data).unwrap();
    assert_eq!(
        records,
        vec![vec!["a".to_string(), "bb".to_string()], vec!["cc".to_string(), "d".to_string()]]
    );
}

#[test]
fn parse_trims_fields() {
    let data = b" a , bb \n cc , d ".to_vec();
    let records = parse_records(&data).unwrap();
    assert_eq!(
        records,
        vec![vec!["a".to_string(), "bb".to_string()], vec!["cc".to_string(), "d".to_string()]]
    );
}

#[test]
fn parse_empty_input_gives_no_records() {
    let data = Vec::new();
    let records = parse_records(&data).unwrap();
    assert!(records.is_empty());
}

#[test]
fn parse_empty_fields_kept() {
    let data = b"a,,c".to_vec();
    let records = parse_records(&data).unwrap();
    assert_eq!(records, vec![vec!["a".to_string(), String::new(), "c".to_string()]]);
}

#[test]
fn parse_ragged_input_is_an_error() {
    let data = b"a,b\nc".to_vec();
    let err = parse_records(&data).unwrap_err();
    assert!(!err.text().is_empty());
}

#[test]
fn parse_invalid_utf8_is_an_error() {
    let data = vec![0xff, 0xfe, 0xfd];
    assert!(parse_records(&data).is_err());
}

#[test]
fn tabulate_basic_end_to_end() {
    let data = b"a,bb\ncc,d".to_vec();
    let opts = RenderOptions { style: Style::Basic, spacing: 1, headers: false, separators: false };
    let out = tabulate(&data, &opts).unwrap();
    assert_eq!(out, "a  bb\ncc d\n");
}

#[test]
fn tabulate_fancy_end_to_end() {
    let data = b"a,bb\ncc,d".to_vec();
    let opts = RenderOptions { style: Style::Fancy, spacing: 1, headers: false, separators: false };
    let out = tabulate(&data, &opts).unwrap();
    assert_eq!(out, "┌────┬────┐\n│ a  │ bb │\n│ cc │ d  │\n└────┴────┘\n");
}

#[test]
fn tabulate_empty_file_both_styles() {
    let data = Vec::new();
    let basic = RenderOptions { style: Style::Basic, spacing: 1, headers: false, separators: false };
    let fancy = RenderOptions { style: Style::Fancy, spacing: 1, headers: false, separators: false };
    assert_eq!(tabulate(&data, &basic).unwrap(), "");
    assert_eq!(tabulate(&data, &fancy).unwrap(), "┌┐\n└┘\n");
}

#[test]
fn tabulate_headers_three_rows_one_separator_after_first() {
    let data = b"name,age\nalice,30\nbob,4".to_vec();
    let opts = RenderOptions { style: Style::Fancy, spacing: 1, headers: true, separators: false };
    let out = tabulate(&data, &opts).unwrap();
    let lines: Vec<&str> = out.lines().collect();
    assert_eq!(lines.len(), 6);
    assert!(lines[2].starts_with('├'));
    assert_eq!(out.matches('├').count(), 1);
}

#[test]
fn tabulate_reruns_are_byte_identical() {
    let data = b"a,bb\ncc,d".to_vec();
    let opts = RenderOptions { style: Style::Fancy, spacing: 2, headers: true, separators: true };
    let first = tabulate(&data, &opts).unwrap();
    let second = tabulate(&data, &opts).unwrap();
    assert_eq!(first, second);
}

#[test]
fn tabulate_error_leaves_no_output() {
    let data = b"a,b\nc".to_vec();
    let opts = RenderOptions { style: Style::Basic, spacing: 1, headers: false, separators: false };
    assert!(tabulate(&data, &opts).is_err());
}
