use pretable::Alignment;
use pretable::PreTable;

#[test]
fn test_format_align_center() {
    let mut buf = String::new();
    PreTable::format_align("abcde", 15, Alignment::Center, &mut buf);
    assert_eq!(buf, "     abcde     ");
}

#[test]
fn test_format_align_left() {
    let mut buf = String::new();
    PreTable::format_align("abcde", 15, Alignment::Left, &mut buf);
    assert_eq!(buf, " abcde         ");
}

#[test]
fn test_format_align_right() {
    let mut buf = String::new();
    PreTable::format_align("abcde", 15, Alignment::Right, &mut buf);
    assert_eq!(buf, "         abcde ");
}

#[test]
fn test_format_align_center_exact_fit() {
    let mut buf = String::new();
    PreTable::format_align("abcde", 5, Alignment::Center, &mut buf);
    assert_eq!(buf, "abcde");
}

#[test]
fn test_format_align_center_odd_padding_goes_right() {
    let mut buf = String::new();
    PreTable::format_align("ab", 5, Alignment::Center, &mut buf);
    assert_eq!(buf, " ab  ");
}

#[test]
fn test_format_align_left_minimal_padding() {
    let mut buf = String::new();
    PreTable::format_align("ab", 3, Alignment::Left, &mut buf);
    assert_eq!(buf, " ab");
}

#[test]
fn test_format_align_right_minimal_padding() {
    let mut buf = String::new();
    PreTable::format_align("ab", 3, Alignment::Right, &mut buf);
    assert_eq!(buf, "ab ");
}

#[test]
fn test_format_align_appends_to_existing_buffer() {
    let mut buf = String::from("x");
    PreTable::format_align("ab", 4, Alignment::Center, &mut buf);
    assert_eq!(buf, "x ab ");
}
