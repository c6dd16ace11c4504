use vstd::prelude::*;
use crate::term::Term;

verus! {

/// TRUE := λab.a
pub open spec fn true_term() -> Term {
    Term::Abs(Box::new(Term::Abs(Box::new(Term::Var(2)))))
}

/// FALSE := λab.b
pub open spec fn false_term() -> Term {
    Term::Abs(Box::new(Term::Abs(Box::new(Term::Var(1)))))
}

/// The Church boolean true, which selects the first of two arguments.
pub fn tru() -> (r: Term)
    ensures
        r == true_term(),
{
    Term::Abs(Box::new(Term::Abs(Box::new(Term::Var(2)))))
}

/// The Church boolean false, which selects the second of two arguments.
pub fn fls() -> (r: Term)
    ensures
        r == false_term(),
{
    Term::Abs(Box::new(Term::Abs(Box::new(Term::Var(1)))))
}

} // verus!
