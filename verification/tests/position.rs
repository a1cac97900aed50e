//! The position tracker: locator updates for ordinary characters, newlines
//! and tabs, the consumed-character count, and the located error type.

use accel_parsec::parseco::{err, err_at, state, Locator, ParserError};

#[test]
fn locator_new_and_default() {
    let l = Locator::new(3, 7);
    assert_eq!(l.column, 3);
    assert_eq!(l.row, 7);
    let next = l.default();
    assert_eq!(next.column, 4);
    assert_eq!(next.row, 7);
}

#[test]
fn state_starts_at_origin() {
    let s = state("abc");
    assert_eq!(s.index, 0);
    assert_eq!(s.locator, Locator::new(0, 0));
}

#[test]
fn ordinary_characters_advance_the_column() {
    let mut s = state("ab");
    assert_eq!(s.next(), Some('a'));
    assert_eq!(s.locator, Locator::new(1, 0));
    assert_eq!(s.next(), Some('b'));
    assert_eq!(s.locator, Locator::new(2, 0));
    assert_eq!(s.index, 2);
}

#[test]
fn newline_resets_column_and_increments_row() {
    let mut s = state("a\nb");
    s.next();
    assert_eq!(s.next(), Some('\n'));
    assert_eq!(s.locator, Locator::new(0, 1));
    assert_eq!(s.next(), Some('b'));
    assert_eq!(s.locator, Locator::new(1, 1));
}

#[test]
fn tab_advances_to_next_multiple_of_eight() {
    let mut s = state("ab\tc");
    s.next();
    s.next();
    assert_eq!(s.locator.column, 2);
    assert_eq!(s.next(), Some('\t'));
    assert_eq!(s.locator.column, 8);
    assert_eq!(s.next(), Some('c'));
    assert_eq!(s.locator.column, 9);
}

#[test]
fn tab_at_a_stop_advances_a_full_stop() {
    let mut s = state("\t\t");
    s.next();
    assert_eq!(s.locator.column, 8);
    s.next();
    assert_eq!(s.locator.column, 16);
    assert_eq!(s.index, 2);
}

#[test]
fn exhausted_state_yields_none_and_stays_put() {
    let mut s = state("a");
    s.next();
    assert_eq!(s.next(), None);
    assert_eq!(s.index, 1);
    assert_eq!(s.next(), None);
}

#[test]
fn cloning_is_the_undo_mechanism() {
    let mut s = state("abc");
    s.next();
    let snapshot = s.clone();
    s.next();
    s.next();
    assert_eq!(s.index, 3);
    let mut restored = snapshot;
    assert_eq!(restored.index, 1);
    assert_eq!(restored.next(), Some('b'));
}

#[test]
fn err_builds_unlocated_failure() {
    let r: Result<(), ParserError> = err("next failed");
    let e = r.unwrap_err();
    assert_eq!(e.message, "next failed".to_string());
    assert_eq!(e.locator, None);
}

#[test]
fn err_at_carries_the_locator() {
    let r: Result<u32, ParserError> = err_at("#Satisfied", Locator::new(4, 2));
    let e = r.unwrap_err();
    assert_eq!(e.message, "#Satisfied".to_string());
    assert_eq!(e.locator, Some(Locator::new(4, 2)));
}

#[test]
fn parser_error_new_has_no_location() {
    let e = ParserError::new("oops");
    assert_eq!(e.message, "oops".to_string());
    assert_eq!(e.locator, None);
}
