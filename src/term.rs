use vstd::prelude::*;

verus! {

/// A pure untyped lambda term using 1-based de Bruijn indices.
#[derive(Debug)]
pub enum Term {
    /// A variable, bound by the `n`-th enclosing abstraction.
    Var(usize),
    /// An abstraction whose body lies one binding level deeper.
    Abs(Box<Term>),
    /// An application of a function term to an argument term.
    App(Box<Term>, Box<Term>),
}

/// Ways in which a term fails to have the shape an operation expects.
#[derive(Debug, Clone, Copy, PartialEq, Eq, Structural)]
pub enum Error {
    NotAbstraction,
    NotApplication,
    NotAPair,
}

impl Term {
    /// Structural equality, variant by variant and index by index.
    pub fn same(&self, other: &Term) -> (r: bool)
        ensures
            r == (*self == *other),
        decreases self,
    {
        match (self, other) {
            (Term::Var(i), Term::Var(j)) => *i == *j,
            (Term::Abs(a), Term::Abs(b)) => (**a).same(&**b),
            (Term::App(f1, a1), Term::App(f2, a2)) => (**f1).same(&**f2) && (**a1).same(&**a2),
            _ => false,
        }
    }
}

impl Clone for Term {
    fn clone(&self) -> (r: Term)
        ensures
            r == *self,
        decreases self,
    {
        match self {
            Term::Var(i) => Term::Var(*i),
            Term::Abs(b) => Term::Abs(Box::new((**b).clone())),
            Term::App(f, a) => Term::App(Box::new((**f).clone()), Box::new((**a).clone())),
        }
    }
}

impl PartialEq for Term {
    fn eq(&self, other: &Term) -> (r: bool) {
        self.same(other)
    }
}

impl vstd::std_specs::cmp::PartialEqSpecImpl for Term {
    open spec fn obeys_eq_spec() -> bool {
        true
    }

    open spec fn eq_spec(&self, other: &Term) -> bool {
        *self == *other
    }
}

impl Eq for Term {}


/// Builds the abstraction `λ. body`.
pub fn abs(body: Term) -> (r: Term)
    ensures
        r == Term::Abs(Box::new(body)),
{
    Term::Abs(Box::new(body))
}

/// Builds the application of `function` to `argument`, without evaluating it.
pub fn apply(function: Term, argument: Term) -> (r: Term)
    ensures
        r == Term::App(Box::new(function), Box::new(argument)),
{
    Term::App(Box::new(function), Box::new(argument))
}

/// The body of an abstraction.
pub open spec fn spec_unabs(t: Term) -> Result<Term, Error> {
    match t {
        Term::Abs(b) => Ok(*b),
        _ => Err(Error::NotAbstraction),
    }
}

/// The function and the argument of an application.
pub open spec fn spec_unapp(t: Term) -> Result<(Term, Term), Error> {
    match t {
        Term::App(f, a) => Ok((*f, *a)),
        _ => Err(Error::NotApplication),
    }
}

/// The function side of an application.
pub open spec fn spec_lhs(t: Term) -> Result<Term, Error> {
    match t {
        Term::App(f, _) => Ok(*f),
        _ => Err(Error::NotApplication),
    }
}

/// The argument side of an application.
pub open spec fn spec_rhs(t: Term) -> Result<Term, Error> {
    match t {
        Term::App(_, a) => Ok(*a),
        _ => Err(Error::NotApplication),
    }
}

/// Reads a borrowed result as the value it points to.
pub open spec fn deref_result(r: Result<&Term, Error>) -> Result<Term, Error> {
    match r {
        Ok(t) => Ok(*t),
        Err(e) => Err(e),
    }
}

impl Term {
    /// Applies `self` to `argument`, without evaluating.
    pub fn app(self, argument: Term) -> (r: Term)
        ensures
            r == Term::App(Box::new(self), Box::new(argument)),
    {
        Term::App(Box::new(self), Box::new(argument))
    }

    /// Takes the body of an abstraction.
    pub fn unabs(self) -> (r: Result<Term, Error>)
        ensures
            r == spec_unabs(self),
    {
        match self {
            Term::Abs(b) => Ok(*b),
            _ => Err(Error::NotAbstraction),
        }
    }

    /// Borrows the body of an abstraction.
    pub fn unabs_ref(&self) -> (r: Result<&Term, Error>)
        ensures
            deref_result(r) == spec_unabs(*self),
    {
        match self {
            Term::Abs(b) => Ok(&**b),
            _ => Err(Error::NotAbstraction),
        }
    }

    /// Borrows the body of an abstraction for editing in place.
    pub fn unabs_ref_mut(&mut self) -> (r: Result<&mut Term, Error>)
        ensures
            match r {
                Ok(b) => {
                    &&& spec_unabs(*old(self)) == Ok::<Term, Error>(*b)
                    &&& *final(self) == Term::Abs(Box::new(*final(b)))
                },
                Err(e) => {
                    &&& spec_unabs(*old(self)) == Err::<Term, Error>(e)
                    &&& *final(self) == *old(self)
                },
            },
    {
        match self {
            Term::Abs(b) => Ok(&mut **b),
            _ => Err(Error::NotAbstraction),
        }
    }

    /// Takes the function and the argument of an application.
    pub fn unapp(self) -> (r: Result<(Term, Term), Error>)
        ensures
            r == spec_unapp(self),
    {
        match self {
            Term::App(f, a) => Ok((*f, *a)),
            _ => Err(Error::NotApplication),
        }
    }

    /// Borrows the function and the argument of an application.
    pub fn unapp_ref(&self) -> (r: Result<(&Term, &Term), Error>)
        ensures
            match r {
                Ok((f, a)) => spec_unapp(*self) == Ok::<(Term, Term), Error>((*f, *a)),
                Err(e) => spec_unapp(*self) == Err::<(Term, Term), Error>(e),
            },
    {
        match self {
            Term::App(f, a) => Ok((&**f, &**a)),
            _ => Err(Error::NotApplication),
        }
    }

    /// Borrows the function and the argument of an application for editing in place.
    pub fn unapp_ref_mut(&mut self) -> (r: Result<(&mut Term, &mut Term), Error>)
        ensures
            match r {
                Ok((f, a)) => {
                    &&& spec_unapp(*old(self)) == Ok::<(Term, Term), Error>((*f, *a))
                    &&& *final(self) == Term::App(Box::new(*final(f)), Box::new(*final(a)))
                },
                Err(e) => {
                    &&& spec_unapp(*old(self)) == Err::<(Term, Term), Error>(e)
                    &&& *final(self) == *old(self)
                },
            },
    {
        match self {
            Term::App(f, a) => Ok((&mut **f, &mut **a)),
            _ => Err(Error::NotApplication),
        }
    }

    /// Takes the function side of an application.
    pub fn lhs(self) -> (r: Result<Term, Error>)
        ensures
            r == spec_lhs(self),
    {
        match self {
            Term::App(f, _) => Ok(*f),
            _ => Err(Error::NotApplication),
        }
    }

    /// Borrows the function side of an application.
    pub fn lhs_ref(&self) -> (r: Result<&Term, Error>)
        ensures
            deref_result(r) == spec_lhs(*self),
    {
        match self {
            Term::App(f, _) => Ok(&**f),
            _ => Err(Error::NotApplication),
        }
    }

    /// Borrows the function side of an application for editing in place.
    pub fn lhs_ref_mut(&mut self) -> (r: Result<&mut Term, Error>)
        ensures
            match r {
                Ok(f) => {
                    &&& spec_lhs(*old(self)) == Ok::<Term, Error>(*f)
                    &&& *final(self) == Term::App(Box::new(*final(f)), Box::new(spec_rhs(*old(self))->Ok_0))
                },
                Err(e) => {
                    &&& spec_lhs(*old(self)) == Err::<Term, Error>(e)
                    &&& *final(self) == *old(self)
                },
            },
    {
        match self {
            Term::App(f, _) => Ok(&mut **f),
            _ => Err(Error::NotApplication),
        }
    }

    /// Takes the argument side of an application.
    pub fn rhs(self) -> (r: Result<Term, Error>)
        ensures
            r == spec_rhs(self),
    {
        match self {
            Term::App(_, a) => Ok(*a),
            _ => Err(Error::NotApplication),
        }
    }

    /// Borrows the argument side of an application.
    pub fn rhs_ref(&self) -> (r: Result<&Term, Error>)
        ensures
            deref_result(r) == spec_rhs(*self),
    {
        match self {
            Term::App(_, a) => Ok(&**a),
            _ => Err(Error::NotApplication),
        }
    }

    /// Borrows the argument side of an application for editing in place.
    pub fn rhs_ref_mut(&mut self) -> (r: Result<&mut Term, Error>)
        ensures
            match r {
                Ok(a) => {
                    &&& spec_rhs(*old(self)) == Ok::<Term, Error>(*a)
                    &&& *final(self) == Term::App(Box::new(spec_lhs(*old(self))->Ok_0), Box::new(*final(a)))
                },
                Err(e) => {
                    &&& spec_rhs(*old(self)) == Err::<Term, Error>(e)
                    &&& *final(self) == *old(self)
                },
            },
    {
        match self {
            Term::App(_, a) => Ok(&mut **a),
            _ => Err(Error::NotApplication),
        }
    }
}

} // verus!
