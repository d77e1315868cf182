use tarnish::and;
use tarnish::apply;
use tarnish::lit;
use tarnish::or;
use tarnish::slurp;
use tarnish::until;
use tarnish::Either;
use tarnish::Lit;
use tarnish::Parser;
use tarnish::ParserErrorKind;
use tarnish::State;

#[test]
fn literal_success_advances_by_match_length() {
    let p = lit("ab").unwrap();
    let mut s = State::new("abc");
    let r = p.parse(&mut s);
    assert_eq!(r.unwrap(), "ab");
    assert_eq!(s.offset(), 2);
}

#[test]
fn literal_failure_leaves_offset_unchanged() {
    let p = lit("x").unwrap();
    let mut s = State::new("abc");
    let r = p.parse(&mut s);
    let e = r.unwrap_err();
    assert_eq!(e.kind, ParserErrorKind::UnexpectedInput);
    assert_eq!(s.offset(), 0);
}

#[test]
fn literal_matches_prefix_not_whole_input() {
    let p = lit("a+").unwrap();
    let mut s = State::new("aaab");
    let r = p.parse(&mut s);
    assert_eq!(r.unwrap(), "aaa");
    assert_eq!(s.offset(), 3);
}

#[test]
fn literal_is_anchored_at_current_position() {
    let p = lit("b").unwrap();
    let mut s = State::new("ab");
    assert!(p.parse(&mut s).is_err());
    assert_eq!(s.offset(), 0);
}

#[test]
fn literal_failure_reports_its_message() {
    let p = lit("x").unwrap();
    let mut s = State::new("abc");
    let e = p.parse(&mut s).unwrap_err();
    assert_eq!(e.msg, "literal did not match");
}

#[test]
fn parenthesis_rebalancing_pattern_cannot_escape_the_anchor() {
    // The pattern's own parentheses close the anchoring wrap early, so the
    // compiled regex can match away from the start; such a match is no match
    // at the start, and the literal fails without moving the cursor.
    let p = lit("a)|(?:b").unwrap();
    let mut s = State::new("xb");
    let e = p.parse(&mut s).unwrap_err();
    assert_eq!(e.kind, ParserErrorKind::UnexpectedInput);
    assert_eq!(s.offset(), 0);
    // At the start the same pattern's unanchored half may still match.
    s.reset("b");
    assert_eq!(p.parse(&mut s).unwrap(), "b");
    assert_eq!(s.offset(), 1);
}

#[test]
fn malformed_pattern_is_invalid_parameter() {
    let r = lit("[");
    let e = r.unwrap_err();
    assert_eq!(e.kind, ParserErrorKind::InvalidParameter);
}

#[test]
fn state_reset_replaces_text_and_rewinds() {
    let p = lit("a").unwrap();
    let mut s = State::new("ab");
    assert!(p.parse(&mut s).is_ok());
    assert_eq!(s.offset(), 1);
    s.reset("aa");
    assert_eq!(s.offset(), 0);
    assert!(p.parse(&mut s).is_ok());
    assert_eq!(s.offset(), 1);
}

#[test]
fn transform_identity_same_success_and_cursor() {
    let plain = lit("a").unwrap();
    let mapped = apply(lit("a").unwrap(), |x: String| x);
    let mut s1 = State::new("ab");
    let mut s2 = State::new("ab");
    let r1 = plain.parse(&mut s1);
    let r2 = mapped.parse(&mut s2);
    assert_eq!(r1.unwrap(), r2.unwrap());
    assert_eq!(s1.offset(), s2.offset());
}

#[test]
fn transform_identity_same_failure_and_cursor() {
    let plain = lit("a").unwrap();
    let mapped = apply(lit("a").unwrap(), |x: String| x);
    let mut s1 = State::new("b");
    let mut s2 = State::new("b");
    let e1 = plain.parse(&mut s1).unwrap_err();
    let e2 = mapped.parse(&mut s2).unwrap_err();
    assert_eq!(e1.kind, e2.kind);
    assert_eq!(s1.offset(), s2.offset());
}

#[test]
fn transform_maps_the_success_value() {
    let p = apply(lit("[0-9]+").unwrap(), |x: String| x.parse::<i64>().unwrap());
    let mut s = State::new("24");
    assert_eq!(p.parse(&mut s).unwrap(), 24);
}

#[test]
fn sequence_pairs_values_in_order() {
    let p = and(lit("a").unwrap(), lit("b").unwrap());
    let mut s = State::new("ab");
    let v = p.parse(&mut s).unwrap();
    assert_eq!(v.first, "a");
    assert_eq!(v.second, "b");
    assert_eq!(s.offset(), 2);
}

#[test]
fn sequence_failure_keeps_first_operands_advance() {
    let p = and(lit("a").unwrap(), lit("b").unwrap());
    let mut s = State::new("ac");
    let e = p.parse(&mut s).unwrap_err();
    assert_eq!(e.kind, ParserErrorKind::UnexpectedInput);
    assert_eq!(s.offset(), 1);
}

#[test]
fn alternative_tags_first_branch_left() {
    let p = or(lit("x").unwrap(), lit("y").unwrap());
    let mut s = State::new("x");
    match p.parse(&mut s).unwrap() {
        Either::Left(v) => assert_eq!(v, "x"),
        Either::Right(_) => panic!("expected the first branch"),
    }
}

#[test]
fn alternative_tags_second_branch_right() {
    let p = or(lit("x").unwrap(), lit("y").unwrap());
    let mut s = State::new("y");
    match p.parse(&mut s).unwrap() {
        Either::Left(_) => panic!("expected the second branch"),
        Either::Right(v) => assert_eq!(v, "y"),
    }
}

#[test]
fn alternative_propagates_second_branch_error() {
    let p = or(lit("x").unwrap(), lit("y").unwrap());
    let mut s = State::new("z");
    let e = p.parse(&mut s).unwrap_err();
    assert_eq!(e.kind, ParserErrorKind::UnexpectedInput);
    assert_eq!(s.offset(), 0);
}

#[test]
fn slurp_fails_on_empty_input() {
    let p = slurp(lit("a").unwrap());
    let mut s = State::new("");
    let e = p.parse(&mut s).unwrap_err();
    assert_eq!(e.kind, ParserErrorKind::UnexpectedInput);
}

#[test]
fn slurp_fails_when_first_attempt_fails() {
    let p = slurp(lit("a").unwrap());
    let mut s = State::new("b");
    let e = p.parse(&mut s).unwrap_err();
    assert_eq!(e.kind, ParserErrorKind::UnexpectedInput);
    assert_eq!(s.offset(), 0);
}

#[test]
fn slurp_collects_greedily_and_stops_at_failure() {
    let p = slurp(lit("a").unwrap());
    let mut s = State::new("aaab");
    let v = p.parse(&mut s).unwrap();
    assert_eq!(v, vec!["a".to_string(), "a".to_string(), "a".to_string()]);
    assert_eq!(s.offset(), 3);
}

#[test]
fn slurp_consumes_whole_input_of_matches() {
    let p = slurp(lit("a").unwrap());
    let mut s = State::new("aaa");
    let v = p.parse(&mut s).unwrap();
    assert_eq!(v.len(), 3);
    assert_eq!(s.offset(), 3);
}

#[test]
fn until_without_delimiter_collects_while_input_remains() {
    let p = until(lit("[ab]").unwrap(), None::<Lit>);
    let mut s = State::new("aba");
    let v = p.parse(&mut s).unwrap();
    assert_eq!(v, vec!["a".to_string(), "b".to_string(), "a".to_string()]);
    assert_eq!(s.offset(), 3);
}

#[test]
fn until_on_empty_input_is_an_empty_success() {
    let p = until(lit("a").unwrap(), None::<Lit>);
    let mut s = State::new("");
    let v = p.parse(&mut s).unwrap();
    assert!(v.is_empty());
    assert_eq!(s.offset(), 0);
}

#[test]
fn until_propagates_inner_failure_mid_loop() {
    let p = until(lit("a").unwrap(), None::<Lit>);
    let mut s = State::new("ab");
    let e = p.parse(&mut s).unwrap_err();
    assert_eq!(e.kind, ParserErrorKind::UnexpectedInput);
    assert_eq!(s.offset(), 1);
}

#[test]
fn alternative_after_a_non_atomic_first_branch_starts_where_it_failed() {
    // A sequence that fails in its second operand leaves the cursor
    // advanced, so the alternative's second branch starts from there, not
    // from the alternative's own start: backtracking is only as good as the
    // first branch's atomicity.
    let p = or(and(lit("a").unwrap(), lit("b").unwrap()), lit("a").unwrap());
    let mut s = State::new("ac");
    let e = p.parse(&mut s).unwrap_err();
    assert_eq!(e.kind, ParserErrorKind::UnexpectedInput);
    assert_eq!(s.offset(), 1);
}

#[test]
fn until_stops_only_when_delimiter_value_equals_prior_value() {
    // The delimiter matches and its value equals the just-parsed value:
    // the loop stops, that value not collected, both matches consumed.
    let p = until(lit("[ab]").unwrap(), Some(lit("b").unwrap()));
    let mut s = State::new("bb");
    let v = p.parse(&mut s).unwrap();
    assert!(v.is_empty());
    assert_eq!(s.offset(), 2);
}

#[test]
fn until_unequal_delimiter_match_still_consumes() {
    // The delimiter matches but its value differs from the just-parsed one:
    // the value is collected and the delimiter's consumption stands.
    let p = until(lit("[ab]").unwrap(), Some(lit("b").unwrap()));
    let mut s = State::new("aabba");
    let v = p.parse(&mut s).unwrap();
    assert_eq!(v, vec!["a".to_string(), "a".to_string(), "b".to_string(), "a".to_string()]);
    assert_eq!(s.offset(), 5);
}
