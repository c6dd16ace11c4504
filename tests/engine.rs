use lambda_calculus::arithmetic::{one, succ, to_cnum, zero};
use lambda_calculus::booleans::{fls, tru};
use lambda_calculus::list::{cons, first, head, nil, null, pair, second, tail};
use lambda_calculus::reduction::{beta_reduce, normalize, reduce_step, shift, substitute};
use lambda_calculus::term::{abs, apply, Error, Term};

fn var(i: usize) -> Term {
    Term::Var(i)
}

#[test]
fn substitution_lowers_indices_above_depth() {
    assert_eq!(substitute(var(5), 2, &var(1)), var(4));
}

#[test]
fn substitution_keeps_indices_below_depth() {
    assert_eq!(substitute(var(1), 2, &var(9)), var(1));
}

#[test]
fn substitution_shifts_replacement_by_depth_minus_one() {
    assert_eq!(substitute(var(3), 3, &var(1)), var(3));
    assert_eq!(substitute(abs(var(3)), 2, &apply(var(1), abs(var(1)))), abs(apply(var(3), abs(var(1)))));
}

#[test]
fn shifting_skips_bound_variables() {
    assert_eq!(shift(&abs(apply(var(1), var(2))), 5, 0), abs(apply(var(1), var(7))));
}

#[test]
fn beta_reduction_of_identity() {
    assert_eq!(beta_reduce(apply(abs(var(1)), var(7))), var(7));
}

#[test]
fn reduction_step_reports_normal_forms() {
    let (t, changed) = reduce_step(abs(var(1)));
    assert!(!changed);
    assert_eq!(t, abs(var(1)));
    let (t, changed) = reduce_step(apply(abs(var(1)), tru()));
    assert!(changed);
    assert_eq!(t, tru());
}

#[test]
fn successor_of_two_is_three() {
    assert_eq!(normalize(succ().app(to_cnum(2))), to_cnum(3));
}

#[test]
fn normalizing_twice_changes_nothing() {
    let once = normalize(pair().app(to_cnum(4)).app(to_cnum(3)));
    let twice = normalize(once.clone());
    assert_eq!(once, twice);
}

#[test]
fn numerals_and_booleans() {
    assert_eq!(to_cnum(0), zero());
    assert_eq!(to_cnum(1), one());
    assert_eq!(to_cnum(2), abs(abs(apply(var(2), apply(var(2), var(1))))));
    assert_eq!(tru(), abs(abs(var(2))));
    assert_eq!(fls(), abs(abs(var(1))));
}

#[test]
fn round_trip_through_uncons() {
    let list = Term::from(vec![to_cnum(1), to_cnum(2), to_cnum(3)]);
    let (a, rest) = list.uncons().unwrap();
    let (b, rest) = rest.uncons().unwrap();
    let (c, rest) = rest.uncons().unwrap();
    assert_eq!(a, to_cnum(1));
    assert_eq!(b, to_cnum(2));
    assert_eq!(c, to_cnum(3));
    assert_eq!(rest, nil());
}

#[test]
fn length_of_converted_lists() {
    assert_eq!(Term::from(vec![]).len(), Ok(0));
    assert_eq!(Term::from(vec![zero()]).len(), Ok(1));
    assert_eq!(Term::from(vec![zero(), one(), tru(), fls()]).len(), Ok(4));
}

#[test]
fn pair_laws_on_booleans() {
    let p = normalize(pair().app(tru()).app(fls()));
    assert_eq!(p.clone().unpair(), Ok((tru(), fls())));
    assert_eq!(p.clone().fst(), Ok(tru()));
    assert_eq!(p.snd(), Ok(fls()));
}

#[test]
fn push_then_pop() {
    let list = nil().push(to_cnum(2));
    assert_eq!(list.len(), Ok(1));
    assert_eq!(list.head(), Ok(to_cnum(2)));
}

#[test]
fn numeral_list_scenario() {
    let list = normalize(cons().app(to_cnum(4)).app(cons().app(to_cnum(3)).app(nil())));
    assert_eq!(list.head_ref(), Ok(&to_cnum(4)));
    assert_eq!(list.tail_ref().and_then(|t| t.head_ref()), Ok(&to_cnum(3)));
}

#[test]
fn unpairing_what_is_not_a_pair() {
    assert_eq!(nil().unpair(), Err(Error::NotAPair));
    assert_eq!(var(1).unpair(), Err(Error::NotAPair));
    assert_eq!(apply(var(1), var(2)).unpair(), Err(Error::NotAPair));
    assert_eq!(nil().fst(), Err(Error::NotAPair));
    assert_eq!(var(1).snd_ref(), Err(Error::NotAPair));
}

#[test]
fn raw_terms_are_not_lists() {
    assert!(!var(1).is_list());
    assert!(!apply(var(1), var(2)).is_list());
    assert!(!var(1).is_empty());
}

#[test]
fn accessor_errors() {
    assert_eq!(var(1).unabs(), Err(Error::NotAbstraction));
    assert_eq!(var(1).unapp(), Err(Error::NotApplication));
    assert_eq!(abs(var(1)).lhs_ref(), Err(Error::NotApplication));
    assert_eq!(abs(var(1)).rhs(), Err(Error::NotApplication));
    assert_eq!(var(3).head(), Err(Error::NotAbstraction));
    assert_eq!(nil().head_ref(), Err(Error::NotAPair));
    assert_eq!(nil().tail(), Err(Error::NotAPair));
    assert_eq!(var(1).len(), Err(Error::NotAbstraction));
}

#[test]
fn accessors_agree_across_ownership() {
    let mut t = apply(var(1), abs(var(2)));
    assert_eq!(t.lhs_ref(), Ok(&var(1)));
    assert_eq!(t.rhs_ref_mut().map(|x| x.clone()), Ok(abs(var(2))));
    assert_eq!(t.clone().unapp(), Ok((var(1), abs(var(2)))));
    assert_eq!(t.unapp_ref(), Ok((&var(1), &abs(var(2)))));
    assert_eq!(t.rhs(), Ok(abs(var(2))));
}

#[test]
fn editing_in_place() {
    let mut list = normalize(cons().app(to_cnum(4)).app(cons().app(to_cnum(3)).app(nil())));
    *list.head_ref_mut().unwrap() = to_cnum(7);
    assert_eq!(list.head_ref(), Ok(&to_cnum(7)));
    *list.tail_ref_mut().unwrap() = nil();
    assert_eq!(list.len(), Ok(1));

    let mut p = normalize(pair().app(tru()).app(fls()));
    *p.fst_ref_mut().unwrap() = zero();
    *p.snd_ref_mut().unwrap() = one();
    assert_eq!(p.unpair(), Ok((zero(), one())));

    let mut t = abs(var(1));
    *t.unabs_ref_mut().unwrap() = var(2);
    assert_eq!(t, abs(var(2)));
    let mut u = apply(var(1), var(2));
    *u.lhs_ref_mut().unwrap() = var(3);
    let (f, a) = u.unapp_ref_mut().unwrap();
    *a = var(4);
    assert_eq!(*f, var(3));
    assert_eq!(u, apply(var(3), var(4)));
}

#[test]
fn selectors_evaluate_as_terms() {
    let p = pair().app(to_cnum(4)).app(to_cnum(3));
    assert_eq!(normalize(first().app(p.clone())), to_cnum(4));
    assert_eq!(normalize(second().app(p)), to_cnum(3));
    let list = Term::from(vec![to_cnum(2), to_cnum(1)]);
    assert_eq!(normalize(head().app(list.clone())), to_cnum(2));
    assert_eq!(normalize(tail().app(list.clone())), Term::from(vec![to_cnum(1)]));
    assert_eq!(normalize(null().app(list)), fls());
    assert_eq!(normalize(null().app(nil())), tru());
}
