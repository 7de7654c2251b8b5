use jsonl_tail::cursor::{Cursor, Span};

#[test]
fn cursor_starts_at_zero() {
    assert_eq!(Cursor::new().offset(), 0);
}

#[test]
fn everything_is_pending_at_the_start() {
    assert_eq!(Cursor::new().pending(120), Some(Span { start: 0, len: 120 }));
}

#[test]
fn nothing_is_pending_in_an_empty_file() {
    assert_eq!(Cursor::new().pending(0), None);
}

#[test]
fn growth_is_pending() {
    let mut cursor = Cursor::new();
    cursor.advance(100);
    assert_eq!(cursor.pending(130), Some(Span { start: 100, len: 30 }));
}

#[test]
fn no_growth_is_not_pending() {
    let mut cursor = Cursor::new();
    cursor.advance(100);
    assert_eq!(cursor.pending(100), None);
}

#[test]
fn shrink_is_not_pending() {
    let mut cursor = Cursor::new();
    cursor.advance(100);
    assert_eq!(cursor.pending(40), None);
}

#[test]
fn cursor_does_not_move_back() {
    let mut cursor = Cursor::new();
    cursor.advance(100);
    cursor.advance(40);
    assert_eq!(cursor.offset(), 100);
    cursor.advance(100);
    assert_eq!(cursor.offset(), 100);
    cursor.advance(101);
    assert_eq!(cursor.offset(), 101);
}

#[test]
fn cursor_reaches_the_largest_length() {
    let mut cursor = Cursor::new();
    cursor.advance(u64::MAX);
    assert_eq!(cursor.offset(), u64::MAX);
    assert_eq!(cursor.pending(u64::MAX), None);
    assert_eq!(Cursor::new().pending(u64::MAX), Some(Span { start: 0, len: u64::MAX }));
}
