use vstd::prelude::*;
use crate::term::Term;

verus! {

/// `f` applied `n` times to `x`, where `f` is bound at index 2 and `x` at index 1.
pub open spec fn numeral_body(n: nat) -> Term
    decreases n,
{
    if n == 0 {
        Term::Var(1)
    } else {
        Term::App(Box::new(Term::Var(2)), Box::new(numeral_body((n - 1) as nat)))
    }
}

/// The Church numeral for `n`: λfx.f (f (... (f x))), with `n` applications.
pub open spec fn church(n: nat) -> Term {
    Term::Abs(Box::new(Term::Abs(Box::new(numeral_body(n)))))
}

/// SUCC := λnfx.f (n f x)
pub open spec fn succ_term() -> Term {
    Term::Abs(Box::new(Term::Abs(Box::new(Term::Abs(Box::new(Term::App(
        Box::new(Term::Var(2)),
        Box::new(Term::App(
            Box::new(Term::App(Box::new(Term::Var(3)), Box::new(Term::Var(2)))),
            Box::new(Term::Var(1)),
        )),
    )))))))
}

/// The Church numeral zero.
pub fn zero() -> (r: Term)
    ensures
        r == church(0),
{
    Term::Abs(Box::new(Term::Abs(Box::new(Term::Var(1)))))
}

/// The Church numeral one.
pub fn one() -> (r: Term)
    ensures
        r == church(1),
{
    proof {
        reveal_with_fuel(numeral_body, 2);
    }
    Term::Abs(Box::new(Term::Abs(Box::new(Term::App(Box::new(Term::Var(2)), Box::new(Term::Var(1)))))))
}

/// The successor function on Church numerals.
pub fn succ() -> (r: Term)
    ensures
        r == succ_term(),
{
    Term::Abs(Box::new(Term::Abs(Box::new(Term::Abs(Box::new(Term::App(
        Box::new(Term::Var(2)),
        Box::new(Term::App(
            Box::new(Term::App(Box::new(Term::Var(3)), Box::new(Term::Var(2)))),
            Box::new(Term::Var(1)),
        )),
    )))))))
}

/// The Church numeral for `n`.
pub fn to_cnum(n: usize) -> (r: Term)
    ensures
        r == church(n as nat),
{
    let mut body = Term::Var(1);
    let mut i: usize = 0;
    while i < n
        invariant
            i <= n,
            body == numeral_body(i as nat),
        decreases n - i,
    {
        body = Term::App(Box::new(Term::Var(2)), Box::new(body));
        i = i + 1;
    }
    Term::Abs(Box::new(Term::Abs(Box::new(body))))
}

} // verus!
