use cali::error::SyncError;
use cali::patcher::{insert_at_loc, resolve_location, SourceLocation};
use cali::text::chars_of;

fn loc(line: usize, column: usize) -> SourceLocation {
    SourceLocation { line, column }
}

#[test]
fn inserts_within_a_line() {
    let r = insert_at_loc("fn a() {}\nfn b() {}\n", loc(2, 3), "XY").unwrap();
    assert_eq!(r, "fn a() {}\nfn XYb() {}\n");
}

#[test]
fn inserts_at_start_and_end_of_text() {
    assert_eq!(insert_at_loc("abc", loc(1, 0), "<").unwrap(), "<abc");
    assert_eq!(insert_at_loc("abc", loc(1, 3), ">").unwrap(), "abc>");
    assert_eq!(insert_at_loc("abc\n", loc(2, 0), "z").unwrap(), "abc\nz");
}

#[test]
fn keeps_other_bytes_and_line_endings() {
    let text = "a\r\n\tb // c\n\n";
    let r = insert_at_loc(text, loc(2, 1), "_").unwrap();
    assert_eq!(r, "a\r\n\t_b // c\n\n");
}

#[test]
fn counts_columns_in_characters() {
    let r = insert_at_loc("\u{e9}t\u{e9}", loc(1, 2), "-").unwrap();
    assert_eq!(r, "\u{e9}t-\u{e9}");
}

#[test]
fn rejects_locations_outside_the_text() {
    assert!(matches!(insert_at_loc("abc", loc(0, 0), "x"), Err(SyncError::InvalidPatchLocation)));
    assert!(matches!(insert_at_loc("abc", loc(2, 0), "x"), Err(SyncError::InvalidPatchLocation)));
    assert!(matches!(insert_at_loc("abc\nd", loc(1, 4), "x"), Err(SyncError::InvalidPatchLocation)));
    assert!(matches!(insert_at_loc("", loc(1, 1), "x"), Err(SyncError::InvalidPatchLocation)));
}

#[test]
fn resolves_locations_to_offsets() {
    let chars = chars_of("ab\ncd\n");
    assert_eq!(resolve_location(&chars, loc(1, 0)), Some(0));
    assert_eq!(resolve_location(&chars, loc(2, 1)), Some(4));
    assert_eq!(resolve_location(&chars, loc(3, 0)), Some(6));
    assert_eq!(resolve_location(&chars, loc(3, 1)), None);
    assert_eq!(resolve_location(&chars, loc(4, 0)), None);
}
