//! The combinator algebra's behavioural laws, exercised on concrete inputs:
//! backtracking, alternation order, repetition totality, and the zero-width
//! repetition guard.

use accel_parsec::parsec::{
    append, asterisk, between, character, either, either3, either4, drop, follow, many,
    map_char_to_string, piece, plus, skip, some, string, token, token_direct, tokens, twice,
    character_direct, Or, Parser, Pred, Satisfied,
};

#[test]
fn satisfied_consumes_one_matching_char() {
    let p = token_direct(Pred::Char('a'));
    assert_eq!(p.parse("abc", 0).unwrap(), (1, 'a'));
    let e = p.parse("bcd", 0).unwrap_err();
    assert_eq!(e.location, 0);
}

#[test]
fn satisfied_fails_at_end_of_input() {
    let p = piece(Pred::Char('a'));
    let e = p.parse("", 0).unwrap_err();
    assert_eq!(e.location, 0);
}

#[test]
fn token_yields_one_char_string() {
    let p = token(Pred::Digit);
    assert_eq!(p.parse("7x", 0).unwrap(), (1, "7".to_string()));
    assert!(p.parse("x7", 0).is_err());
}

#[test]
fn character_matches_exactly_and_reports_start() {
    let p = character('(');
    assert_eq!(p.parse("(x)", 0).unwrap(), (1, "(".to_string()));
    let e = p.parse("x)", 0).unwrap_err();
    assert_eq!(e.location, 0);
}

#[test]
fn character_direct_yields_the_char_itself() {
    let p = map_char_to_string(character_direct('q'));
    assert_eq!(p.parse("qr", 0).unwrap(), (1, "q".to_string()));
}

#[test]
fn string_matches_prefix_and_consumes_its_length() {
    let p = string("abc");
    assert_eq!(p.parse("abcdef", 0).unwrap(), (3, "abc".to_string()));
    assert_eq!(p.parse("xabc", 1).unwrap(), (4, "abc".to_string()));
}

#[test]
fn string_failure_consumes_nothing_even_on_partial_match() {
    let p = string("abc");
    let e = p.parse("abx", 0).unwrap_err();
    assert_eq!(e.location, 0);
}

#[test]
fn empty_string_matches_everywhere_with_zero_width() {
    let p = string("");
    assert_eq!(p.parse("xyz", 1).unwrap(), (1, "".to_string()));
    assert_eq!(p.parse("", 0).unwrap(), (0, "".to_string()));
}

#[test]
fn tokens_matches_fixed_window_from_choices() {
    let p = tokens(2, vec!["->".to_string(), "=>".to_string()]);
    assert_eq!(p.parse("->x", 0).unwrap(), (2, "->".to_string()));
    assert_eq!(p.parse("=>x", 0).unwrap(), (2, "=>".to_string()));
    let e = p.parse(">-x", 0).unwrap_err();
    assert_eq!(e.location, 0);
}

#[test]
fn tokens_fails_when_too_little_input_remains() {
    let p = tokens(2, vec!["->".to_string()]);
    let e = p.parse("-", 0).unwrap_err();
    assert_eq!(e.location, 0);
}

#[test]
fn follow_pairs_both_values_in_order() {
    let p = follow(character('a'), character('b'));
    assert_eq!(p.parse("abc", 0).unwrap(), (2, ("a".to_string(), "b".to_string())));
}

#[test]
fn follow_failure_of_second_reports_inner_position() {
    // Sequencing does not roll back what its first part consumed: the
    // failure is located where the second part failed.
    let p = follow(character('a'), character('b'));
    let e = p.parse("ax", 0).unwrap_err();
    assert_eq!(e.location, 1);
}

#[test]
fn skip_keeps_left_value() {
    let p = skip(character('a'), character('b'));
    assert_eq!(p.parse("ab", 0).unwrap(), (2, "a".to_string()));
}

#[test]
fn drop_keeps_right_value() {
    let p = drop(character('a'), character('b'));
    assert_eq!(p.parse("ab", 0).unwrap(), (2, "b".to_string()));
}

#[test]
fn between_keeps_only_the_inner_value() {
    let p = between(character('('), character(')'), token(Pred::Digit));
    assert_eq!(p.parse("(7)", 0).unwrap(), (3, "7".to_string()));
    let e = p.parse("(7", 0).unwrap_err();
    assert_eq!(e.location, 2);
}

#[test]
fn append_concatenates_both_fragments() {
    let p = append(character('a'), character('b'));
    assert_eq!(p.parse("abc", 0).unwrap(), (2, "ab".to_string()));
}

#[test]
fn twice_concatenates_two_runs_of_the_same_parser() {
    let p = twice(character('a'));
    assert_eq!(p.parse("aaaabbbb", 0).unwrap(), (2, "aa".to_string()));
    assert!(p.parse("ab", 0).is_err());
}

#[test]
fn alternation_returns_first_branch_when_both_match() {
    // Ordered choice: no longest match. Both branches match "xy"; the
    // first one wins.
    let p = either(string("x"), string("xy"));
    assert_eq!(p.parse("xy", 0).unwrap(), (1, "x".to_string()));
}

#[test]
fn alternation_backtracks_to_original_input() {
    // The first branch consumes "a" and then fails; the second branch is
    // attempted against the original, unconsumed input.
    let p = either(append(character('a'), character('b')), character('a'));
    assert_eq!(p.parse("ac", 0).unwrap(), (1, "a".to_string()));
}

#[test]
fn alternation_reports_second_branch_error_when_both_fail() {
    let p = either(character('x'), character('y'));
    let e = p.parse("z", 0).unwrap_err();
    assert_eq!(e.location, 0);
}

#[test]
fn or_new_builds_the_same_choice() {
    let p = Or::new(character('x'), character('y'));
    assert_eq!(p.parse("y", 0).unwrap(), (1, "y".to_string()));
}

#[test]
fn either3_tries_all_three_in_order() {
    let p = either3(character('a'), character('b'), character('c'));
    assert_eq!(p.parse("c", 0).unwrap(), (1, "c".to_string()));
    assert!(p.parse("d", 0).is_err());
}

#[test]
fn either4_tries_all_four_in_order() {
    let p = either4(character('a'), character('b'), character('c'), character('d'));
    assert_eq!(p.parse("d", 0).unwrap(), (1, "d".to_string()));
    assert!(p.parse("e", 0).is_err());
}

#[test]
fn many_collects_until_first_failure() {
    let p = many(character('a'));
    assert_eq!(
        p.parse("aaab", 0).unwrap(),
        (3, vec!["a".to_string(), "a".to_string(), "a".to_string()])
    );
}

#[test]
fn many_never_fails() {
    let p = many(character('a'));
    assert_eq!(p.parse("bbb", 0).unwrap(), (0, vec![]));
    assert_eq!(p.parse("", 0).unwrap(), (0, vec![]));
}

#[test]
fn some_fails_iff_first_attempt_fails() {
    let p = some(character('a'));
    assert_eq!(p.parse("aab", 0).unwrap(), (2, vec!["a".to_string(), "a".to_string()]));
    let e = p.parse("baa", 0).unwrap_err();
    assert_eq!(e.location, 0);
}

#[test]
fn asterisk_concatenates_and_never_fails() {
    let p = asterisk(character('a'));
    assert_eq!(p.parse("aaaabbbb", 0).unwrap(), (4, "aaaa".to_string()));
    assert_eq!(p.parse("cab", 0).unwrap(), (0, "".to_string()));
}

#[test]
fn plus_concatenates_and_fails_only_at_first() {
    let p = plus(character('a'));
    assert_eq!(p.parse("aaaabbbb", 0).unwrap(), (4, "aaaa".to_string()));
    let e = p.parse("baaa", 0).unwrap_err();
    assert_eq!(e.location, 0);
}

#[test]
fn zero_width_repetition_terminates() {
    // A parser that succeeds while consuming nothing would loop forever
    // under naive repetition; the repetition detects the lack of progress
    // and stops, collecting nothing.
    let p = asterisk(string(""));
    assert_eq!(p.parse("abc", 0).unwrap(), (0, "".to_string()));
    let q = many(string(""));
    assert_eq!(q.parse("abc", 1).unwrap(), (1, vec![]));
}

#[test]
fn one_or_more_of_zero_width_parser_fails_rather_than_looping() {
    let p = plus(string(""));
    let e = p.parse("abc", 0).unwrap_err();
    assert_eq!(e.location, 0);
}

#[test]
fn satisfied_new_and_holds_agree_with_class() {
    let p = Satisfied::new(Pred::Quotes);
    assert_eq!(p.parse("'x", 0).unwrap(), (1, '\''));
    assert_eq!(p.parse("\"x", 0).unwrap(), (1, '"'));
    assert!(p.parse("x", 0).is_err());
}
