use pretable::Alignment;
use pretable::PreTable;

#[test]
fn test_empty_table_renders_single_corner() {
    let table = PreTable::new();

    assert_eq!(table.output(), "+");
}

#[test]
fn test_zero_rows_renders_header_and_two_dividers() {
    let mut table = PreTable::new();
    table.set_header(vec!["A", "BB"]);

    let expected = "+---+----+
| A | BB |
+---+----+";
    assert_eq!(table.output(), expected);
}

#[test]
fn test_rows_without_columns_render_bare_verticals() {
    let mut table = PreTable::new();
    table.add_body(vec!["x"]);
    table.add_body(vec![]);

    assert_eq!(table.output(), "+\n|\n|\n+");
}

#[test]
fn test_add_header_incremental() {
    let mut table = PreTable::new();
    table.add_header("KEY");
    table.add_header_with_alignment("L", Alignment::Left);
    table.add_header_with_alignment("R", Alignment::Right);
    table.add_body(vec!["k1", "aa", "bb"]);

    let expected = "+-----+----+----+
| KEY | L  |  R |
+-----+----+----+
| k1  | aa | bb |
+-----+----+----+";
    assert_eq!(table.output(), expected);
}

#[test]
fn test_set_header_with_alignment() {
    let mut table = PreTable::new();
    table.set_header_with_alignment(vec![
        ("KEY", Alignment::Left),
        ("VALUE", Alignment::Center),
        ("DESCRIPTION", Alignment::Right),
    ]);
    table.add_body(vec!["key1", "value1", "description1"]);

    let expected = "+------+--------+--------------+
| KEY  | VALUE  |  DESCRIPTION |
+------+--------+--------------+
| key1 | value1 | description1 |
+------+--------+--------------+";
    assert_eq!(table.output(), expected);
}

#[test]
fn test_set_default_alignment() {
    let mut table = PreTable::new();
    table.set_default_alignment(Alignment::Left);
    table.set_header(vec!["A", "B"]);
    table.add_body(vec!["xx", "yy"]);

    let expected = "+----+----+
| A  | B  |
+----+----+
| xx | yy |
+----+----+";
    assert_eq!(table.output(), expected);
}

#[test]
fn test_set_header_drops_previous_columns_and_rows() {
    let mut table = PreTable::new();
    table.set_header(vec!["KEY", "VALUE"]);
    table.add_body(vec!["key1", "value1"]);
    table.set_header(vec!["X"]);

    assert_eq!(table.output(), "+---+\n| X |\n+---+");
}

#[test]
fn test_extra_values_are_discarded() {
    let mut table = PreTable::new();
    table.set_header(vec!["A"]);
    table.add_body(vec!["x", "ignored", "also ignored"]);

    assert_eq!(table.output(), "+---+\n| A |\n+---+\n| x |\n+---+");
}

#[test]
fn test_split_rows_with_hidden_header() {
    let mut table = PreTable::new();
    table.set_header(vec!["A"]);
    table.add_body(vec!["x"]);
    table.add_body(vec!["y"]);
    table.set_show_header(false);
    table.set_body_split(true);

    assert_eq!(table.output(), "+---+\n| x |\n+---+\n| y |\n+---+");
}
