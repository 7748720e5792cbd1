use rtab::{
    basic_format, calculate_widths, fancy_format, render, RenderOptions, Style, Table,
};

fn owned(rows: &[&[&str]]) -> Vec<Vec<String>> {
    rows.iter().map(|r| r.iter().map(|f| f.to_string()).collect()).collect()
}

#[test]
fn widths_two_by_two() {
    let records = owned(&[&["a", "bb"], &["cc", "d"]]);
    let w = calculate_widths(&records);
    assert_eq!(w, vec![2, 2]);
}

#[test]
fn widths_empty_input() {
    let records: Vec<Vec<String>> = Vec::new();
    let w = calculate_widths(&records);
    assert!(w.is_empty());
}

#[test]
fn widths_count_characters_not_bytes() {
    let records = owned(&[&["héllo"], &["abc"]]);
    let w = calculate_widths(&records);
    assert_eq!(w, vec![5]);
}

#[test]
fn widths_ignore_columns_beyond_first_record() {
    let records = owned(&[&["a"], &["bb", "cccc"]]);
    let w = calculate_widths(&records);
    assert_eq!(w, vec![2]);
}

#[test]
fn basic_two_by_two() {
    let t = Table::new(owned(&[&["a", "bb"], &["cc", "d"]]));
    let out = basic_format(&t, 1).unwrap();
    assert_eq!(out, "a  bb\ncc d\n");
}

#[test]
fn basic_empty_input_is_empty_string() {
    let t = Table::new(Vec::new());
    let out = basic_format(&t, 1).unwrap();
    assert_eq!(out, "");
}

#[test]
fn basic_zero_spacing() {
    let t = Table::new(owned(&[&["a", "b"], &["cc", "d"]]));
    let out = basic_format(&t, 0).unwrap();
    assert_eq!(out, "a b\nccd\n");
}

#[test]
fn basic_short_row_renders_short() {
    let t = Table::new(owned(&[&["a", "b"], &["c"]]));
    let out = basic_format(&t, 1).unwrap();
    assert_eq!(out, "a b\nc\n");
}

#[test]
fn basic_long_row_zipped_to_width_count() {
    let t = Table::new(owned(&[&["a"], &["b", "x"]]));
    let out = basic_format(&t, 1).unwrap();
    assert_eq!(out, "a\nb\n");
}

#[test]
fn basic_unicode_alignment() {
    let t = Table::new(owned(&[&["héllo", "x"], &["ab", "y"]]));
    let out = basic_format(&t, 1).unwrap();
    assert_eq!(out, "héllo x\nab    y\n");
}

#[test]
fn fancy_two_by_two() {
    let t = Table::new(owned(&[&["a", "bb"], &["cc", "d"]]));
    let out = fancy_format(&t, false, false, 1).unwrap();
    assert_eq!(out, "┌────┬────┐\n│ a  │ bb │\n│ cc │ d  │\n└────┴────┘\n");
}

#[test]
fn fancy_empty_input_is_bare_borders() {
    let t = Table::new(Vec::new());
    let out = fancy_format(&t, false, false, 1).unwrap();
    assert_eq!(out, "┌┐\n└┘\n");
}

#[test]
fn fancy_headers_draws_one_separator_after_first_row() {
    let t = Table::new(owned(&[&["a"], &["b"], &["c"]]));
    let out = fancy_format(&t, true, false, 1).unwrap();
    assert_eq!(out, "┌───┐\n│ a │\n├───┤\n│ b │\n│ c │\n└───┘\n");
}

#[test]
fn fancy_separators_before_every_later_row() {
    let t = Table::new(owned(&[&["a"], &["b"], &["c"]]));
    let out = fancy_format(&t, false, true, 1).unwrap();
    assert_eq!(out, "┌───┐\n│ a │\n├───┤\n│ b │\n├───┤\n│ c │\n└───┘\n");
}

#[test]
fn fancy_headers_take_precedence_over_separators() {
    let t = Table::new(owned(&[&["a"], &["b"], &["c"]]));
    let both = fancy_format(&t, true, true, 1).unwrap();
    let headers_only = fancy_format(&t, true, false, 1).unwrap();
    assert_eq!(both, headers_only);
    assert_eq!(both.matches('├').count(), 1);
}

#[test]
fn fancy_zero_spacing() {
    let t = Table::new(owned(&[&["ab"]]));
    let out = fancy_format(&t, false, false, 0).unwrap();
    assert_eq!(out, "┌──┐\n│ab│\n└──┘\n");
}

#[test]
fn fancy_spacing_two() {
    let t = Table::new(owned(&[&["a"]]));
    let out = fancy_format(&t, false, false, 2).unwrap();
    assert_eq!(out, "┌─────┐\n│  a  │\n└─────┘\n");
}

#[test]
fn render_dispatches_on_style() {
    let t = Table::new(owned(&[&["a", "bb"], &["cc", "d"]]));
    let opts_basic = RenderOptions { style: Style::Basic, spacing: 1, headers: false, separators: false };
    let opts_fancy = RenderOptions { style: Style::Fancy, spacing: 1, headers: false, separators: false };
    assert_eq!(render(&t, &opts_basic).unwrap(), basic_format(&t, 1).unwrap());
    assert_eq!(render(&t, &opts_fancy).unwrap(), fancy_format(&t, false, false, 1).unwrap());
}

#[test]
fn basic_field_with_inner_spaces_kept() {
    let t = Table::new(owned(&[&["a b", "c"]]));
    let out = basic_format(&t, 1).unwrap();
    assert_eq!(out, "a b c\n");
}

#[test]
fn basic_lines_have_no_trailing_whitespace() {
    let t = Table::new(owned(&[&["a", "bb"], &["cc", "d"]]));
    let out = basic_format(&t, 3).unwrap();
    for line in out.lines() {
        assert_eq!(line, line.trim_end());
    }
}
