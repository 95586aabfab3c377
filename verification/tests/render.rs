use pretable::PreTable;

fn generate_test_table() -> PreTable {
    let mut table = PreTable::new();
    table.set_header(vec!["KEY", "VALUE", "DESCRIPTION"]);
    table.add_body(vec!["key1", "value1", "description1"]);
    table.add_body(vec!["key2", "long value 2", "description2"]);
    table.add_body(vec!["key3", "value3", "description3"]);

    table
}

#[test]
fn test_output() {
    let table = generate_test_table();

    let actual = table.output();
    let expected = "+------+--------------+--------------+
| KEY  |    VALUE     | DESCRIPTION  |
+------+--------------+--------------+
| key1 |    value1    | description1 |
| key2 | long value 2 | description2 |
| key3 |    value3    | description3 |
+------+--------------+--------------+";
    assert_eq!(actual, expected);
}

#[test]
fn test_skip_item() {
    let mut table = PreTable::new();
    table.set_header(vec!["KEY", "VALUE", "DESCRIPTION"]);
    table.add_body(vec!["key1", "value1"]);
    table.add_body(vec!["key2", "", "description2"]);

    let actual = table.output();
    let expected = "+------+--------+--------------+
| KEY  | VALUE  | DESCRIPTION  |
+------+--------+--------------+
| key1 | value1 |              |
| key2 |        | description2 |
+------+--------+--------------+";
    assert_eq!(actual, expected);
}

#[test]
fn test_set_line_char() {
    let mut table = generate_test_table();
    table.set_line_char('x');

    let actual = table.output();
    let expected = "+xxxxxx+xxxxxxxxxxxxxx+xxxxxxxxxxxxxx+
| KEY  |    VALUE     | DESCRIPTION  |
+xxxxxx+xxxxxxxxxxxxxx+xxxxxxxxxxxxxx+
| key1 |    value1    | description1 |
| key2 | long value 2 | description2 |
| key3 |    value3    | description3 |
+xxxxxx+xxxxxxxxxxxxxx+xxxxxxxxxxxxxx+";
    assert_eq!(actual, expected);
}

#[test]
fn test_set_vertical_char() {
    let mut table = generate_test_table();
    table.set_vertical_char('x');

    let actual = table.output();
    let expected = "+------+--------------+--------------+
x KEY  x    VALUE     x DESCRIPTION  x
+------+--------------+--------------+
x key1 x    value1    x description1 x
x key2 x long value 2 x description2 x
x key3 x    value3    x description3 x
+------+--------------+--------------+";
    assert_eq!(actual, expected);
}

#[test]
fn test_set_corner_char() {
    let mut table = generate_test_table();
    table.set_corner_char('x');

    let actual = table.output();
    let expected = "x------x--------------x--------------x
| KEY  |    VALUE     | DESCRIPTION  |
x------x--------------x--------------x
| key1 |    value1    | description1 |
| key2 | long value 2 | description2 |
| key3 |    value3    | description3 |
x------x--------------x--------------x";
    assert_eq!(actual, expected);
}

#[test]
fn test_set_show_header() {
    let mut table = generate_test_table();
    table.set_show_header(false);

    let actual = table.output();
    let expected = "+------+--------------+--------------+
| key1 |    value1    | description1 |
| key2 | long value 2 | description2 |
| key3 |    value3    | description3 |
+------+--------------+--------------+";
    assert_eq!(actual, expected);
}

#[test]
fn test_set_body_split() {
    let mut table = generate_test_table();
    table.set_body_split(true);

    let actual = table.output();
    let expected = "+------+--------------+--------------+
| KEY  |    VALUE     | DESCRIPTION  |
+------+--------------+--------------+
| key1 |    value1    | description1 |
+------+--------------+--------------+
| key2 | long value 2 | description2 |
+------+--------------+--------------+
| key3 |    value3    | description3 |
+------+--------------+--------------+";
    assert_eq!(actual, expected);
}

#[test]
fn test_line() {
    let table = generate_test_table();

    assert_eq!(table.line(), "+------+--------------+--------------+");
}

#[test]
fn test_render_twice_identical() {
    let table = generate_test_table();

    let first = table.output();
    let second = table.output();
    assert_eq!(first, second);
}

#[test]
fn test_all_lines_equal_length_and_boundaries_align() {
    let mut table = generate_test_table();
    table.set_body_split(true);

    let rendered = table.output();
    let lines: Vec<&str> = rendered.split('\n').collect();
    assert_eq!(lines.len(), 9);
    for line in &lines {
        assert_eq!(line.len(), lines[0].len());
    }
    for (offset, c) in lines[0].char_indices() {
        if c == '+' {
            for line in &lines {
                let b = line.as_bytes()[offset];
                assert!(b == b'+' || b == b'|');
            }
        }
    }
}
