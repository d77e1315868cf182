use tarnish::and;
use tarnish::apply;
use tarnish::fold;
use tarnish::lit;
use tarnish::or;
use tarnish::slurp;
use tarnish::until;
use tarnish::Either;
use tarnish::Lit;
use tarnish::Parser;
use tarnish::ParserErrorKind;
use tarnish::Seq2;
use tarnish::State;

#[test]
fn concat_folds_a_repetition_by_addition() {
    // The repetition produces the values two, three and minus one; their
    // left-to-right fold is four.
    let term = apply(lit("-?[0-9]+ ?").unwrap(), |x: String| {
        x.trim().parse::<i64>().unwrap()
    });
    let p = fold::concat(slurp(term));
    let mut s = State::new("2 3 -1");
    assert_eq!(p.parse(&mut s).unwrap(), 4);
}

#[test]
fn concat_of_a_single_value_is_that_value() {
    let term = apply(lit("[0-9]+").unwrap(), |x: String| x.parse::<i64>().unwrap());
    let p = fold::concat(slurp(term));
    let mut s = State::new("7");
    assert_eq!(p.parse(&mut s).unwrap(), 7);
}

#[test]
fn concat_fails_on_an_empty_sequence() {
    // An empty input leaves the bounded repetition with nothing collected,
    // and the fold rejects the empty sequence.
    let nums = until(lit("[0-9]").unwrap(), None::<Lit>);
    let term = apply(nums, |v: Vec<String>| {
        v.into_iter().map(|x| x.parse::<i64>().unwrap()).collect::<Vec<i64>>()
    });
    let p = fold::concat(term);
    let mut s = State::new("");
    let e = p.parse(&mut s).unwrap_err();
    assert_eq!(e.kind, ParserErrorKind::UnexpectedInput);
    assert_eq!(e.msg, "empty sequence in concat");
}

#[test]
fn concat_reports_an_unrepresentable_sum() {
    let term = apply(lit("-?[0-9]+ ?").unwrap(), |x: String| {
        x.trim().parse::<i64>().unwrap()
    });
    let p = fold::concat(slurp(term));
    let mut s = State::new("9223372036854775807 1");
    let e = p.parse(&mut s).unwrap_err();
    assert_eq!(e.kind, ParserErrorKind::UnexpectedInput);
    assert_eq!(e.msg, "sum overflow in concat");
}

#[test]
fn until_compares_numeric_values_for_the_stop() {
    let term = apply(lit("[0-9] ?").unwrap(), |x: String| {
        x.trim().parse::<i64>().unwrap()
    });
    let delim = apply(lit("[0-9] ?").unwrap(), |x: String| {
        x.trim().parse::<i64>().unwrap()
    });
    let p = until(term, Some(delim));
    let mut s = State::new("5 5");
    let v = p.parse(&mut s).unwrap();
    assert!(v.is_empty());
    assert_eq!(s.offset(), 3);
}

#[test]
fn alternative_returns_the_second_branchs_error_value() {
    // The two branches fail with different messages; the error returned is
    // exactly the second branch's, the first branch's failure discarded.
    let first = slurp(lit("x").unwrap());
    let nums = until(lit("[0-9]").unwrap(), None::<Lit>);
    let second = fold::concat(apply(nums, |v: Vec<String>| {
        v.into_iter().map(|x| x.parse::<i64>().unwrap()).collect::<Vec<i64>>()
    }));
    let p = or(first, second);
    let mut s = State::new("");
    let e = p.parse(&mut s).unwrap_err();
    assert_eq!(e.msg, "empty sequence in concat");
}

fn arithmetic_expression() -> impl Parser<Output = i64> {
    let numstr = lit("[0-9]+").unwrap();
    let plus = lit("\\+").unwrap();
    let minus = lit("-").unwrap();

    let num = apply(numstr, |x: String| x.parse::<i64>().unwrap());
    let add_num = apply(
        and(plus, apply(lit("[0-9]+").unwrap(), |x: String| x.parse::<i64>().unwrap())),
        |v: Seq2<String, i64>| v.second,
    );
    let sub_num = apply(
        and(minus, apply(lit("[0-9]+").unwrap(), |x: String| x.parse::<i64>().unwrap())),
        |v: Seq2<String, i64>| -v.second,
    );

    let slurp_add = slurp(add_num);
    let slurp_sub = slurp(sub_num);
    let or_slurp = or(slurp_add, slurp_sub);
    let pick_slurp = apply(or_slurp, |v: Either<Vec<i64>, Vec<i64>>| {
        match v {
            Either::Left(lval) => lval,
            Either::Right(rval) => rval,
        }
    });
    let concat_slurp = fold::concat(pick_slurp);
    let slurp_concat = slurp(concat_slurp);
    let concat_concat = fold::concat(slurp_concat);
    let and_num_slurp = and(num, concat_concat);
    apply(and_num_slurp, |v: Seq2<i64, i64>| v.first + v.second)
}

#[test]
fn arithmetic_scenario_sums_signed_terms() {
    let expr = arithmetic_expression();
    let mut s = State::new("3+4-2");
    assert_eq!(expr.parse(&mut s).unwrap(), 5);
    assert_eq!(s.offset(), 5);
}

#[test]
fn arithmetic_scenario_succeeds_on_a_numeric_prefix() {
    // The grammar does not require consuming the whole input: a trailing
    // newline is left unread and the numeric prefix still sums.
    let expr = arithmetic_expression();
    let mut s = State::new("3+4-2\n");
    assert_eq!(expr.parse(&mut s).unwrap(), 5);
    assert_eq!(s.offset(), 5);
}

#[test]
fn arithmetic_scenario_fails_without_a_leading_number() {
    let expr = arithmetic_expression();
    let mut s = State::new("+4");
    let e = expr.parse(&mut s).unwrap_err();
    assert_eq!(e.kind, ParserErrorKind::UnexpectedInput);
}
