use vstd::prelude::*;
use crate::term::{Term, Error, abs, spec_unabs, deref_result};
use crate::booleans::{tru, fls, true_term, false_term};
use crate::reduction::{
    normalize, has_normal_form, normal_form, abs_depth, step, run, is_normal, closed, closed_at,
    within_limits, reaches_normal, substituted, lemma_shift_closed, lemma_subst_closed,
    lemma_closed_weaken, lemma_normal_within_limits,
    lemma_normal_form_is, lemma_run_under_abs, lemma_run_under_app, lemma_closed_within_limits,
};

verus! {

/// `f a` as a term.
pub open spec fn app_of(f: Term, a: Term) -> Term {
    Term::App(Box::new(f), Box::new(a))
}

/// PAIR := λxyf.f x y
pub open spec fn pair_term() -> Term {
    Term::Abs(Box::new(Term::Abs(Box::new(Term::Abs(Box::new(
        app_of(app_of(Term::Var(1), Term::Var(3)), Term::Var(2)),
    ))))))
}

/// FIRST := λp.p TRUE
pub open spec fn first_term() -> Term {
    Term::Abs(Box::new(app_of(Term::Var(1), true_term())))
}

/// SECOND := λp.p FALSE
pub open spec fn second_term() -> Term {
    Term::Abs(Box::new(app_of(Term::Var(1), false_term())))
}

/// NIL := λx.TRUE
pub open spec fn nil_term() -> Term {
    Term::Abs(Box::new(true_term()))
}

/// NULL := λp.p (λxy.FALSE)
pub open spec fn null_term() -> Term {
    Term::Abs(Box::new(app_of(Term::Var(1), Term::Abs(Box::new(Term::Abs(Box::new(false_term())))))))
}

/// CONS := λht.PAIR FALSE (PAIR h t)
pub open spec fn cons_term() -> Term {
    Term::Abs(Box::new(Term::Abs(Box::new(app_of(
        app_of(pair_term(), false_term()),
        app_of(app_of(pair_term(), Term::Var(2)), Term::Var(1)),
    )))))
}

/// HEAD := λz.FIRST (SECOND z)
pub open spec fn head_term() -> Term {
    Term::Abs(Box::new(app_of(first_term(), app_of(second_term(), Term::Var(1)))))
}

/// TAIL := λz.SECOND (SECOND z)
pub open spec fn tail_term() -> Term {
    Term::Abs(Box::new(app_of(second_term(), app_of(second_term(), Term::Var(1)))))
}

/// The pair constructor.
pub fn pair() -> (r: Term)
    ensures
        r == pair_term(),
{
    abs(abs(abs(Term::Var(1).app(Term::Var(3)).app(Term::Var(2)))))
}

/// The selector of a pair's first component.
pub fn first() -> (r: Term)
    ensures
        r == first_term(),
{
    abs(Term::Var(1).app(tru()))
}

/// The selector of a pair's second component.
pub fn second() -> (r: Term)
    ensures
        r == second_term(),
{
    abs(Term::Var(1).app(fls()))
}

/// The empty list.
pub fn nil() -> (r: Term)
    ensures
        r == nil_term(),
{
    abs(tru())
}

/// The emptiness test on lists.
pub fn null() -> (r: Term)
    ensures
        r == null_term(),
{
    abs(Term::Var(1).app(abs(abs(fls()))))
}

/// The list constructor.
pub fn cons() -> (r: Term)
    ensures
        r == cons_term(),
{
    abs(abs(pair().app(fls()).app(pair().app(Term::Var(2)).app(Term::Var(1)))))
}

/// The selector of a list's first element.
pub fn head() -> (r: Term)
    ensures
        r == head_term(),
{
    abs(first().app(second().app(Term::Var(1))))
}

/// The selector of a list's remainder.
pub fn tail() -> (r: Term)
    ensures
        r == tail_term(),
{
    abs(second().app(second().app(Term::Var(1))))
}

/// The part of a pair term that holds its components: the body when the
/// pair is wrapped in an abstraction, the term itself otherwise.
pub open spec fn pair_core(t: Term) -> Term {
    match t {
        Term::Abs(b) => *b,
        _ => t,
    }
}

/// `t` with its pair core replaced by `core`.
pub open spec fn put_core(t: Term, core: Term) -> Term {
    match t {
        Term::Abs(_) => Term::Abs(Box::new(core)),
        _ => core,
    }
}

/// The first component of a pair term `s a b` or `λ. s a b`.
pub open spec fn spec_fst(t: Term) -> Result<Term, Error> {
    match pair_core(t) {
        Term::App(f, _) => match *f {
            Term::App(_, a) => Ok(*a),
            _ => Err(Error::NotAPair),
        },
        _ => Err(Error::NotAPair),
    }
}

/// The second component of a pair term `s a b` or `λ. s a b`.
pub open spec fn spec_snd(t: Term) -> Result<Term, Error> {
    match pair_core(t) {
        Term::App(_, b) => Ok(*b),
        _ => Err(Error::NotAPair),
    }
}

/// Both components of a pair term.
pub open spec fn spec_unpair(t: Term) -> Result<(Term, Term), Error> {
    match pair_core(t) {
        Term::App(f, b) => match *f {
            Term::App(_, a) => Ok((*a, *b)),
            _ => Err(Error::NotAPair),
        },
        _ => Err(Error::NotAPair),
    }
}

/// `t` with its first component replaced by `x`.
pub open spec fn with_fst(t: Term, x: Term) -> Term {
    match pair_core(t) {
        Term::App(f, b) => match *f {
            Term::App(s, _) => put_core(t, Term::App(Box::new(Term::App(s, Box::new(x))), b)),
            _ => t,
        },
        _ => t,
    }
}

/// `t` with its second component replaced by `x`.
pub open spec fn with_snd(t: Term, x: Term) -> Term {
    match pair_core(t) {
        Term::App(f, _) => put_core(t, Term::App(f, Box::new(x))),
        _ => t,
    }
}

impl Term {
    /// Borrows the pair core of `self` for editing in place.
    fn pair_core_mut(&mut self) -> (r: &mut Term)
        ensures
            *r == pair_core(*old(self)),
            *final(self) == put_core(*old(self), *final(r)),
    {
        match *self {
            Term::Abs(ref mut b) => &mut **b,
            _ => self,
        }
    }

    /// Whether both components of a pair can be read from `self`.
    pub fn is_pair(&self) -> (r: bool)
        ensures
            r == (spec_fst(*self) is Ok && spec_snd(*self) is Ok),
    {
        self.fst_ref().is_ok() && self.snd_ref().is_ok()
    }

    /// Takes both components of a pair.
    pub fn unpair(self) -> (r: Result<(Term, Term), Error>)
        ensures
            r == spec_unpair(self),
    {
        let core = match self {
            Term::Abs(b) => *b,
            other => other,
        };
        match core.unapp() {
            Ok((f, b)) => match f.rhs() {
                Ok(a) => Ok((a, b)),
                Err(_) => Err(Error::NotAPair),
            },
            Err(_) => Err(Error::NotAPair),
        }
    }

    /// Takes the first component of a pair.
    pub fn fst(self) -> (r: Result<Term, Error>)
        ensures
            r == spec_fst(self),
    {
        let core = match self {
            Term::Abs(b) => *b,
            other => other,
        };
        match core.lhs() {
            Ok(f) => match f.rhs() {
                Ok(a) => Ok(a),
                Err(_) => Err(Error::NotAPair),
            },
            Err(_) => Err(Error::NotAPair),
        }
    }

    /// Borrows the first component of a pair.
    pub fn fst_ref(&self) -> (r: Result<&Term, Error>)
        ensures
            deref_result(r) == spec_fst(*self),
    {
        let core = match self {
            Term::Abs(b) => &**b,
            other => other,
        };
        match core.lhs_ref() {
            Ok(f) => match f.rhs_ref() {
                Ok(a) => Ok(a),
                Err(_) => Err(Error::NotAPair),
            },
            Err(_) => Err(Error::NotAPair),
        }
    }

    /// Borrows the first component of a pair for editing in place.
    pub fn fst_ref_mut(&mut self) -> (r: Result<&mut Term, Error>)
        ensures
            match r {
                Ok(a) => {
                    &&& spec_fst(*old(self)) == Ok::<Term, Error>(*a)
                    &&& *final(self) == with_fst(*old(self), *final(a))
                },
                Err(e) => {
                    &&& spec_fst(*old(self)) == Err::<Term, Error>(e)
                    &&& *final(self) == *old(self)
                },
            },
    {
        let core = self.pair_core_mut();
        match core.lhs_ref_mut() {
            Ok(f) => match f.rhs_ref_mut() {
                Ok(a) => Ok(a),
                Err(_) => Err(Error::NotAPair),
            },
            Err(_) => Err(Error::NotAPair),
        }
    }

    /// Takes the second component of a pair.
    pub fn snd(self) -> (r: Result<Term, Error>)
        ensures
            r == spec_snd(self),
    {
        let core = match self {
            Term::Abs(b) => *b,
            other => other,
        };
        match core.rhs() {
            Ok(b) => Ok(b),
            Err(_) => Err(Error::NotAPair),
        }
    }

    /// Borrows the second component of a pair.
    pub fn snd_ref(&self) -> (r: Result<&Term, Error>)
        ensures
            deref_result(r) == spec_snd(*self),
    {
        let core = match self {
            Term::Abs(b) => &**b,
            other => other,
        };
        match core.rhs_ref() {
            Ok(b) => Ok(b),
            Err(_) => Err(Error::NotAPair),
        }
    }

    /// Borrows the second component of a pair for editing in place.
    pub fn snd_ref_mut(&mut self) -> (r: Result<&mut Term, Error>)
        ensures
            match r {
                Ok(b) => {
                    &&& spec_snd(*old(self)) == Ok::<Term, Error>(*b)
                    &&& *final(self) == with_snd(*old(self), *final(b))
                },
                Err(e) => {
                    &&& spec_snd(*old(self)) == Err::<Term, Error>(e)
                    &&& *final(self) == *old(self)
                },
            },
    {
        let core = self.pair_core_mut();
        match core.rhs_ref_mut() {
            Ok(b) => Ok(b),
            Err(_) => Err(Error::NotAPair),
        }
    }
}

/// The first element of a list cell `λ. s TAG (λ. s' head tail)`.
pub open spec fn spec_head(t: Term) -> Result<Term, Error> {
    match spec_unabs(t) {
        Ok(b) => match spec_snd(b) {
            Ok(p) => spec_fst(p),
            Err(e) => Err(e),
        },
        Err(e) => Err(e),
    }
}

/// The remainder of a list cell.
pub open spec fn spec_tail(t: Term) -> Result<Term, Error> {
    match spec_unabs(t) {
        Ok(b) => match spec_snd(b) {
            Ok(p) => spec_snd(p),
            Err(e) => Err(e),
        },
        Err(e) => Err(e),
    }
}

/// The first element and the remainder of a list cell.
pub open spec fn spec_uncons(t: Term) -> Result<(Term, Term), Error> {
    match spec_unabs(t) {
        Ok(b) => match spec_snd(b) {
            Ok(p) => spec_unpair(p),
            Err(e) => Err(e),
        },
        Err(e) => Err(e),
    }
}

/// The list cell `t` with its first element replaced by `x`.
pub open spec fn with_head(t: Term, x: Term) -> Term {
    match t {
        Term::Abs(b) => Term::Abs(Box::new(with_snd(*b, with_fst(spec_snd(*b)->Ok_0, x)))),
        _ => t,
    }
}

/// The list cell `t` with its remainder replaced by `x`.
pub open spec fn with_tail(t: Term, x: Term) -> Term {
    match t {
        Term::Abs(b) => Term::Abs(Box::new(with_snd(*b, with_snd(spec_snd(*b)->Ok_0, x)))),
        _ => t,
    }
}

/// The remainder of a list cell lies strictly deeper than the cell.
pub proof fn lemma_tail_shallower(t: Term)
    requires
        spec_tail(t) is Ok,
    ensures
        abs_depth(spec_tail(t)->Ok_0) < abs_depth(t),
{
    let b = spec_unabs(t)->Ok_0;
    let p = spec_snd(b)->Ok_0;
    assert(abs_depth(t) == abs_depth(b) + 1);
    match b {
        Term::Abs(c) => {
            assert(abs_depth(*c) < abs_depth(b));
        },
        _ => {},
    }
    assert(abs_depth(p) <= abs_depth(b));
    match p {
        Term::Abs(c) => {
            assert(abs_depth(*c) < abs_depth(p));
        },
        _ => {},
    }
}

/// The number of cells walked from `t` by taking remainders until the empty
/// list is reached, or the first error met on the way.
pub open spec fn list_len(t: Term) -> Result<nat, Error>
    decreases abs_depth(t),
{
    if t == nil_term() {
        Ok(0)
    } else {
        match spec_tail(t) {
            Ok(rest) => {
                proof {
                    lemma_tail_shallower(t);
                }
                match list_len(rest) {
                    Ok(n) => Ok(n + 1),
                    Err(e) => Err(e),
                }
            },
            Err(e) => Err(e),
        }
    }
}

/// `cons x t`, unevaluated.
pub open spec fn cons_app(x: Term, t: Term) -> Term {
    app_of(app_of(cons_term(), x), t)
}

/// The elements of `s`, in order, consed onto `end`, unevaluated.
pub open spec fn cons_chain(s: Seq<Term>, end: Term) -> Term
    decreases s.len(),
{
    if s.len() == 0 {
        end
    } else {
        cons_chain(s.drop_last(), cons_app(s.last(), end))
    }
}

impl Term {
    /// Whether `self` is structurally the empty list.
    pub fn is_empty(&self) -> (r: bool)
        ensures
            r == (*self == nil_term()),
    {
        self.same(&nil())
    }

    /// Whether `self` is the empty list or a list cell.
    pub fn is_list(&self) -> (r: bool)
        ensures
            r == (*self == nil_term() || (spec_head(*self) is Ok && spec_tail(*self) is Ok)),
    {
        self.is_empty() || self.head_ref().is_ok() && self.tail_ref().is_ok()
    }

    /// Takes the first element and the remainder of a list cell.
    pub fn uncons(self) -> (r: Result<(Term, Term), Error>)
        ensures
            r == spec_uncons(self),
    {
        match self.unabs() {
            Ok(b) => match b.snd() {
                Ok(p) => p.unpair(),
                Err(e) => Err(e),
            },
            Err(e) => Err(e),
        }
    }

    /// Takes the first element of a list cell.
    pub fn head(self) -> (r: Result<Term, Error>)
        ensures
            r == spec_head(self),
    {
        match self.unabs() {
            Ok(b) => match b.snd() {
                Ok(p) => p.fst(),
                Err(e) => Err(e),
            },
            Err(e) => Err(e),
        }
    }

    /// Borrows the first element of a list cell.
    pub fn head_ref(&self) -> (r: Result<&Term, Error>)
        ensures
            deref_result(r) == spec_head(*self),
    {
        match self.unabs_ref() {
            Ok(b) => match b.snd_ref() {
                Ok(p) => p.fst_ref(),
                Err(e) => Err(e),
            },
            Err(e) => Err(e),
        }
    }

    /// Borrows the first element of a list cell for editing in place.
    pub fn head_ref_mut(&mut self) -> (r: Result<&mut Term, Error>)
        ensures
            match r {
                Ok(h) => {
                    &&& spec_head(*old(self)) == Ok::<Term, Error>(*h)
                    &&& *final(self) == with_head(*old(self), *final(h))
                },
                Err(e) => {
                    &&& spec_head(*old(self)) == Err::<Term, Error>(e)
                    &&& *final(self) == *old(self)
                },
            },
    {
        match self.unabs_ref_mut() {
            Ok(b) => match b.snd_ref_mut() {
                Ok(p) => p.fst_ref_mut(),
                Err(e) => Err(e),
            },
            Err(e) => Err(e),
        }
    }

    /// Takes the remainder of a list cell.
    pub fn tail(self) -> (r: Result<Term, Error>)
        ensures
            r == spec_tail(self),
    {
        match self.unabs() {
            Ok(b) => match b.snd() {
                Ok(p) => p.snd(),
                Err(e) => Err(e),
            },
            Err(e) => Err(e),
        }
    }

    /// Borrows the remainder of a list cell.
    pub fn tail_ref(&self) -> (r: Result<&Term, Error>)
        ensures
            deref_result(r) == spec_tail(*self),
    {
        match self.unabs_ref() {
            Ok(b) => match b.snd_ref() {
                Ok(p) => p.snd_ref(),
                Err(e) => Err(e),
            },
            Err(e) => Err(e),
        }
    }

    /// Borrows the remainder of a list cell for editing in place.
    pub fn tail_ref_mut(&mut self) -> (r: Result<&mut Term, Error>)
        ensures
            match r {
                Ok(t) => {
                    &&& spec_tail(*old(self)) == Ok::<Term, Error>(*t)
                    &&& *final(self) == with_tail(*old(self), *final(t))
                },
                Err(e) => {
                    &&& spec_tail(*old(self)) == Err::<Term, Error>(e)
                    &&& *final(self) == *old(self)
                },
            },
    {
        match self.unabs_ref_mut() {
            Ok(b) => match b.snd_ref_mut() {
                Ok(p) => p.snd_ref_mut(),
                Err(e) => Err(e),
            },
            Err(e) => Err(e),
        }
    }
    /// Counts the cells of a list by following remainders until the empty
    /// list; fails with the first error met on the way.
    pub fn len(&self) -> (r: Result<usize, Error>)
        requires
            abs_depth(*self) <= usize::MAX,
        ensures
            match list_len(*self) {
                Ok(n) => r == Ok::<usize, Error>(n as usize),
                Err(e) => r == Err::<usize, Error>(e),
            },
    {
        let empty = nil();
        let mut inner: &Term = self;
        let mut n: usize = 0;
        while !inner.same(&empty)
            invariant
                empty == nil_term(),
                abs_depth(*self) <= usize::MAX,
                n + abs_depth(*inner) <= abs_depth(*self),
                list_len(*self) == match list_len(*inner) {
                    Ok(k) => Ok::<nat, Error>(k + n as nat),
                    Err(e) => Err::<nat, Error>(e),
                },
            decreases abs_depth(*inner),
        {
            match inner.tail_ref() {
                Ok(rest) => {
                    proof {
                        lemma_tail_shallower(*inner);
                    }
                    inner = rest;
                    n = n + 1;
                },
                Err(e) => {
                    return Err(e);
                },
            }
        }
        Ok(n)
    }

    /// The list `self` with `t` put in front of it, normalized.
    pub fn push(self, t: Term) -> (r: Term)
        requires
            has_normal_form(cons_app(t, self)),
        ensures
            r == normal_form(cons_app(t, self)),
    {
        normalize(cons().app(t).app(self))
    }

    /// The list of `terms`, in order, normalized: the elements are consed
    /// onto the empty list from the last one to the first.
    pub fn from(terms: Vec<Term>) -> (r: Term)
        requires
            has_normal_form(cons_chain(terms@, nil_term())),
        ensures
            r == normal_form(cons_chain(terms@, nil_term())),
    {
        let ghost all = terms@;
        let mut terms = terms;
        let mut output = nil();
        while terms.len() > 0
            invariant
                cons_chain(all, nil_term()) == cons_chain(terms@, output),
            decreases terms.len(),
        {
            let ghost before = terms@;
            let t = terms.pop().unwrap();
            assert(before.drop_last() == terms@);
            output = cons().app(t).app(output);
        }
        normalize(output)
    }
}

/// `pair a b`, unevaluated.
pub open spec fn pair_app(a: Term, b: Term) -> Term {
    app_of(app_of(pair_term(), a), b)
}

/// The pair of `a` and `b` in normal form: λf. f a b.
pub open spec fn pair_nf(a: Term, b: Term) -> Term {
    Term::Abs(Box::new(app_of(app_of(Term::Var(1), a), b)))
}

/// `t` is shallow enough that building lists and pairs of it computes only
/// indices that fit in a `usize`.
pub open spec fn shallow(t: Term) -> bool {
    2 * abs_depth(t) + 16 <= usize::MAX
}

/// `pair a` after one step: λyf. f a y.
pub open spec fn pair_half(a: Term) -> Term {
    Term::Abs(Box::new(Term::Abs(Box::new(app_of(app_of(Term::Var(1), a), Term::Var(2))))))
}

/// Facts about the constant terms that pairs and lists are built from.
proof fn lemma_constants()
    ensures
        closed(pair_term()),
        closed(false_term()),
        closed(cons_term()),
        is_normal(pair_term()),
        is_normal(false_term()),
        abs_depth(pair_term()) == 3,
        abs_depth(false_term()) == 2,
        abs_depth(cons_term()) == 5,
{
    let v1 = Term::Var(1);
    let v2 = Term::Var(2);
    let v3 = Term::Var(3);
    let pr = pair_term();
    let fls = false_term();
    let pb = app_of(app_of(v1, v3), v2);
    assert(closed_at(v1, 3) && closed_at(v2, 3) && closed_at(v3, 3));
    assert(closed_at(app_of(v1, v3), 3));
    assert(closed_at(pb, 3));
    assert(closed_at(Term::Abs(Box::new(pb)), 2));
    assert(closed_at(Term::Abs(Box::new(Term::Abs(Box::new(pb)))), 1));
    assert(closed(pr));
    assert(closed_at(v1, 2));
    assert(closed_at(Term::Abs(Box::new(v1)), 1));
    assert(closed(fls));
    assert(step(v1) is None && step(v2) is None && step(v3) is None);
    assert(step(app_of(v1, v3)) is None);
    assert(step(pb) is None);
    assert(step(Term::Abs(Box::new(pb))) is None);
    assert(step(Term::Abs(Box::new(Term::Abs(Box::new(pb))))) is None);
    assert(is_normal(pr));
    assert(step(Term::Abs(Box::new(v1))) is None);
    assert(is_normal(fls));
    assert(abs_depth(v1) == 0 && abs_depth(v2) == 0 && abs_depth(v3) == 0);
    assert(abs_depth(app_of(v1, v3)) == 0);
    assert(abs_depth(pb) == 0);
    assert(abs_depth(Term::Abs(Box::new(pb))) == 1);
    assert(abs_depth(Term::Abs(Box::new(Term::Abs(Box::new(pb))))) == 2);
    assert(abs_depth(pr) == 3);
    assert(abs_depth(Term::Abs(Box::new(v1))) == 1);
    assert(abs_depth(fls) == 2);
    let inner = app_of(app_of(pr, v2), v1);
    let b2 = app_of(app_of(pr, fls), inner);
    lemma_closed_weaken(pr, 0, 2);
    lemma_closed_weaken(fls, 0, 2);
    assert(closed_at(v1, 2) && closed_at(v2, 2));
    assert(closed_at(app_of(pr, v2), 2));
    assert(closed_at(inner, 2));
    assert(closed_at(app_of(pr, fls), 2));
    assert(closed_at(b2, 2));
    assert(closed_at(Term::Abs(Box::new(b2)), 1));
    assert(closed(cons_term()));
    assert(abs_depth(app_of(pr, v2)) == 3);
    assert(abs_depth(inner) == 3);
    assert(abs_depth(app_of(pr, fls)) == 3);
    assert(abs_depth(b2) == 3);
    assert(abs_depth(Term::Abs(Box::new(b2))) == 4);
}

/// Applying the pair constructor to a closed term takes one step.
proof fn lemma_pair_applied(a: Term)
    requires
        closed(a),
    ensures
        step(app_of(pair_term(), a)) == Some(pair_half(a)),
{
    let v1 = Term::Var(1);
    let v2 = Term::Var(2);
    let v3 = Term::Var(3);
    lemma_shift_closed(a, 2, 0);
    assert(substituted(v3, 3, a) == a);
    assert(substituted(v1, 3, a) == v1);
    assert(substituted(v2, 3, a) == v2);
    assert(substituted(app_of(v1, v3), 3, a) == app_of(v1, a));
    assert(substituted(app_of(app_of(v1, v3), v2), 3, a) == app_of(app_of(v1, a), v2));
    assert(substituted(Term::Abs(Box::new(app_of(app_of(v1, v3), v2))), 2, a)
        == Term::Abs(Box::new(app_of(app_of(v1, a), v2))));
}

/// Applying a half-built pair to a closed term takes one step.
proof fn lemma_pair_completed(a: Term, b: Term)
    requires
        closed(a),
        closed(b),
    ensures
        step(app_of(pair_half(a), b)) == Some(pair_nf(a, b)),
{
    let v1 = Term::Var(1);
    let v2 = Term::Var(2);
    lemma_closed_weaken(a, 0, 1);
    lemma_subst_closed(a, 2, b);
    lemma_shift_closed(b, 1, 0);
    assert(substituted(v1, 2, b) == v1);
    assert(substituted(v2, 2, b) == b);
    assert(substituted(app_of(v1, a), 2, b) == app_of(v1, a));
    assert(substituted(app_of(app_of(v1, a), v2), 2, b) == app_of(app_of(v1, a), b));
}

/// A pair of normal terms is normal.
proof fn lemma_pair_nf_normal(a: Term, b: Term)
    requires
        is_normal(a),
        is_normal(b),
    ensures
        is_normal(pair_nf(a, b)),
        is_normal(app_of(Term::Var(1), a)),
{
    let v1 = Term::Var(1);
    assert(step(v1) is None);
    assert(step(app_of(v1, a)) is None);
    assert(step(app_of(app_of(v1, a), b)) is None);
}

/// Normalizing `pair a b`, for closed normal `a` and `b`, gives a pair from
/// which `unpair`, `fst` and `snd` read back `a` and `b`.
pub proof fn lemma_pair_laws(a: Term, b: Term)
    requires
        closed(a),
        closed(b),
        is_normal(a),
        is_normal(b),
        shallow(a),
        shallow(b),
    ensures
        has_normal_form(pair_app(a, b)),
        normal_form(pair_app(a, b)) == pair_nf(a, b),
        spec_unpair(normal_form(pair_app(a, b))) == Ok::<(Term, Term), Error>((a, b)),
        spec_fst(normal_form(pair_app(a, b))) == Ok::<Term, Error>(a),
        spec_snd(normal_form(pair_app(a, b))) == Ok::<Term, Error>(b),
{
    let v1 = Term::Var(1);
    let v2 = Term::Var(2);
    let pr = pair_term();
    let t0 = pair_app(a, b);
    let t1 = app_of(pair_half(a), b);
    let t2 = pair_nf(a, b);
    lemma_constants();
    lemma_pair_applied(a);
    lemma_pair_completed(a, b);
    lemma_pair_nf_normal(a, b);
    assert(step(t0) == Some(t1));
    lemma_normal_within_limits(t2);
    assert(reaches_normal(t2, 0));
    lemma_closed_weaken(a, 0, 2);
    assert(closed_at(v1, 2) && closed_at(v2, 2));
    assert(closed_at(app_of(v1, a), 2));
    assert(closed_at(app_of(app_of(v1, a), v2), 2));
    assert(closed_at(Term::Abs(Box::new(app_of(app_of(v1, a), v2))), 1));
    assert(closed(pair_half(a)));
    assert(closed(t1));
    assert(abs_depth(v1) == 0 && abs_depth(v2) == 0);
    assert(abs_depth(app_of(v1, a)) == abs_depth(a));
    assert(abs_depth(app_of(app_of(v1, a), v2)) == abs_depth(a));
    assert(abs_depth(Term::Abs(Box::new(app_of(app_of(v1, a), v2)))) == abs_depth(a) + 1);
    assert(abs_depth(pair_half(a)) == abs_depth(a) + 2);
    lemma_closed_within_limits(t1, 0);
    assert(reaches_normal(t1, 1));
    assert(closed(app_of(pr, a)));
    assert(closed(t0));
    assert(abs_depth(app_of(pr, a)) <= 3 + abs_depth(a));
    assert(abs_depth(t0) <= 3 + abs_depth(a) + abs_depth(b));
    lemma_closed_within_limits(t0, 0);
    assert(reaches_normal(t0, 2));
    assert(run(t2, 0) == t2);
    assert(run(t1, 1) == t2);
    lemma_normal_form_is(t0, 2);
}

/// A list cell in normal form, holding `h` and the list `rest`:
/// λf. f FALSE (λg. g h rest).
pub open spec fn cell(h: Term, rest: Term) -> Term {
    pair_nf(false_term(), pair_nf(h, rest))
}

/// `cons h t`, for a closed normal `h` and a closed `t` that reaches its
/// normal form in `n` steps, reaches a list cell in `n + 6` steps.
pub proof fn lemma_cons_normalizes(h: Term, t: Term, n: nat)
    requires
        closed(h),
        is_normal(h),
        shallow(h),
        closed(t),
        shallow(t),
        reaches_normal(t, n),
    ensures
        reaches_normal(cons_app(h, t), n + 6),
        run(cons_app(h, t), n + 6) == cell(h, run(t, n)),
{
    let v1 = Term::Var(1);
    let v2 = Term::Var(2);
    let pr = pair_term();
    let fls = false_term();
    lemma_constants();
    let inner = app_of(app_of(pr, v2), v1);
    let b2 = app_of(app_of(pr, fls), inner);
    let hv = app_of(app_of(pr, h), v1);
    let c1 = Term::Abs(Box::new(app_of(app_of(pr, fls), hv)));
    let t0 = cons_app(h, t);
    let t1 = app_of(c1, t);
    let y = app_of(app_of(pr, h), t);
    let t2 = app_of(app_of(pr, fls), y);
    let t3 = app_of(pair_half(fls), y);
    let t4 = pair_nf(fls, y);
    let y1 = app_of(pair_half(h), t);
    let n1 = app_of(v1, fls);
    let t5 = Term::Abs(Box::new(app_of(n1, y1)));
    let t6 = Term::Abs(Box::new(app_of(n1, pair_nf(h, t))));

    // first step: the constructor takes the head
    lemma_closed_weaken(pr, 0, 1);
    lemma_closed_weaken(fls, 0, 1);
    lemma_subst_closed(pr, 2, h);
    lemma_subst_closed(fls, 2, h);
    lemma_shift_closed(h, 1, 0);
    assert(substituted(v2, 2, h) == h);
    assert(substituted(v1, 2, h) == v1);
    assert(substituted(app_of(pr, v2), 2, h) == app_of(pr, h));
    assert(substituted(inner, 2, h) == hv);
    assert(substituted(app_of(pr, fls), 2, h) == app_of(pr, fls));
    assert(substituted(b2, 2, h) == app_of(app_of(pr, fls), hv));
    assert(step(app_of(cons_term(), h)) == Some(c1));
    assert(step(t0) == Some(t1));

    // second step: the constructor takes the tail
    lemma_subst_closed(pr, 1, t);
    lemma_subst_closed(fls, 1, t);
    lemma_subst_closed(h, 1, t);
    lemma_shift_closed(t, 0, 0);
    assert(substituted(v1, 1, t) == t);
    assert(substituted(app_of(pr, h), 1, t) == app_of(pr, h));
    assert(substituted(hv, 1, t) == y);
    assert(substituted(app_of(pr, fls), 1, t) == app_of(pr, fls));
    assert(step(t1) == Some(t2));

    // the outer pair is built around the tag
    lemma_pair_applied(fls);
    assert(step(t2) == Some(t3));
    assert(closed(app_of(pr, h)));
    assert(closed(y));
    lemma_pair_completed(fls, y);
    assert(step(t3) == Some(t4));

    // the inner pair is built around the head and the tail
    lemma_pair_nf_normal(fls, fls);
    assert(is_normal(n1));
    lemma_pair_applied(h);
    assert(step(y) == Some(y1));
    assert(step(app_of(n1, y)) == Some(app_of(n1, y1)));
    assert(step(t4) == Some(t5));
    lemma_pair_completed(h, t);
    assert(step(app_of(n1, y1)) == Some(app_of(n1, pair_nf(h, t))));
    assert(step(t5) == Some(t6));

    // then the tail is reduced inside the cell
    let n2 = app_of(v1, h);
    lemma_pair_nf_normal(h, h);
    assert(is_normal(n2));
    lemma_run_under_app(n2, t, n);
    lemma_run_under_abs(app_of(n2, t), n);
    assert(pair_nf(h, t) == Term::Abs(Box::new(app_of(n2, t))));
    lemma_run_under_app(n1, pair_nf(h, t), n);
    lemma_run_under_abs(app_of(n1, pair_nf(h, t)), n);
    assert(reaches_normal(t6, n));
    assert(run(t6, n) == cell(h, run(t, n)));

    // every term on the way is closed and shallow, hence within limits
    let d = abs_depth(h) + abs_depth(t);
    assert(closed_at(v1, 1) && closed_at(v1, 2) && closed_at(v2, 2));
    assert(abs_depth(v1) == 0 && abs_depth(v2) == 0);
    lemma_closed_weaken(h, 0, 1);
    lemma_closed_weaken(t, 0, 1);
    lemma_closed_weaken(pr, 0, 2);
    lemma_closed_weaken(fls, 0, 2);
    lemma_closed_weaken(h, 0, 2);

    assert(closed(app_of(cons_term(), h)));
    assert(closed(t0));
    assert(abs_depth(app_of(cons_term(), h)) <= 5 + d);
    assert(abs_depth(t0) <= 5 + d);
    lemma_closed_within_limits(t0, 0);

    assert(closed_at(app_of(pr, h), 1));
    assert(closed_at(hv, 1));
    assert(closed_at(app_of(pr, fls), 1));
    assert(closed_at(app_of(app_of(pr, fls), hv), 1));
    assert(closed(c1));
    assert(closed(t1));
    assert(abs_depth(app_of(pr, h)) <= 3 + d);
    assert(abs_depth(hv) <= 3 + d);
    assert(abs_depth(app_of(pr, fls)) == 3);
    assert(abs_depth(app_of(app_of(pr, fls), hv)) <= 3 + d);
    assert(abs_depth(c1) <= 4 + d);
    assert(abs_depth(t1) <= 4 + d);
    lemma_closed_within_limits(t1, 0);

    assert(closed(app_of(pr, fls)));
    assert(closed(t2));
    assert(abs_depth(y) <= 3 + d);
    assert(abs_depth(t2) <= 3 + d);
    lemma_closed_within_limits(t2, 0);

    assert(closed_at(app_of(v1, fls), 2));
    assert(closed_at(app_of(app_of(v1, fls), v2), 2));
    assert(closed_at(Term::Abs(Box::new(app_of(app_of(v1, fls), v2))), 1));
    assert(closed(pair_half(fls)));
    assert(closed(t3));
    assert(abs_depth(app_of(v1, fls)) == 2);
    assert(abs_depth(app_of(app_of(v1, fls), v2)) == 2);
    assert(abs_depth(Term::Abs(Box::new(app_of(app_of(v1, fls), v2)))) == 3);
    assert(abs_depth(pair_half(fls)) == 4);
    assert(abs_depth(t3) <= 4 + d);
    lemma_closed_within_limits(t3, 0);

    lemma_closed_weaken(y, 0, 1);
    assert(closed_at(n1, 1));
    assert(closed_at(app_of(n1, y), 1));
    assert(closed(t4));
    assert(abs_depth(app_of(n1, y)) <= 3 + d);
    assert(abs_depth(t4) <= 4 + d);
    lemma_closed_within_limits(t4, 0);

    assert(closed_at(app_of(v1, h), 2));
    assert(closed_at(app_of(app_of(v1, h), v2), 2));
    assert(closed_at(Term::Abs(Box::new(app_of(app_of(v1, h), v2))), 1));
    assert(closed(pair_half(h)));
    assert(closed(y1));
    lemma_closed_weaken(y1, 0, 1);
    assert(closed_at(app_of(n1, y1), 1));
    assert(closed(t5));
    assert(abs_depth(app_of(v1, h)) == abs_depth(h));
    assert(abs_depth(app_of(app_of(v1, h), v2)) == abs_depth(h));
    assert(abs_depth(Term::Abs(Box::new(app_of(app_of(v1, h), v2)))) == abs_depth(h) + 1);
    assert(abs_depth(pair_half(h)) == abs_depth(h) + 2);
    assert(abs_depth(y1) <= 2 + d);
    assert(abs_depth(app_of(n1, y1)) <= 2 + d);
    assert(abs_depth(t5) <= 3 + d);
    lemma_closed_within_limits(t5, 0);

    assert(reaches_normal(t5, n + 1));
    assert(reaches_normal(t4, n + 2));
    assert(reaches_normal(t3, n + 3));
    assert(reaches_normal(t2, n + 4));
    assert(reaches_normal(t1, n + 5));
    assert(reaches_normal(t0, n + 6));
    assert(run(t5, n + 1) == run(t6, n));
    assert(run(t4, n + 2) == run(t6, n));
    assert(run(t3, n + 3) == run(t6, n));
    assert(run(t2, n + 4) == run(t6, n));
    assert(run(t1, n + 5) == run(t6, n));
    assert(run(t0, n + 6) == run(t6, n));
}

/// The normal form of the list of `s`: a cell for each element, in order,
/// ending in the empty list.
pub open spec fn list_nf(s: Seq<Term>) -> Term
    decreases s.len(),
{
    if s.len() == 0 {
        nil_term()
    } else {
        cell(s[0], list_nf(s.drop_first()))
    }
}

/// Every element of `s` is closed, normal and shallow.
pub open spec fn plain_elements(s: Seq<Term>) -> bool {
    forall|i: int| 0 <= i < s.len() ==> {
        &&& closed(#[trigger] s[i])
        &&& is_normal(s[i])
        &&& shallow(s[i])
    }
}

/// Read from the front, a chain conses its first element onto the rest.
pub proof fn lemma_cons_chain_front(s: Seq<Term>, end: Term)
    requires
        s.len() > 0,
    ensures
        cons_chain(s, end) == cons_app(s[0], cons_chain(s.drop_first(), end)),
    decreases s.len(),
{
    if s.len() > 1 {
        lemma_cons_chain_front(s.drop_last(), cons_app(s.last(), end));
        assert(s.drop_last().drop_first() =~= s.drop_first().drop_last());
        assert(s.drop_first().last() == s.last());
        assert(s.drop_last()[0] == s[0]);
        assert(cons_chain(s.drop_first(), end) == cons_chain(
            s.drop_first().drop_last(),
            cons_app(s.drop_first().last(), end),
        ));
    } else {
        assert(s.drop_first().len() == 0);
        assert(s.drop_last().len() == 0);
        assert(s.last() == s[0]);
        assert(cons_chain(s.drop_last(), cons_app(s.last(), end)) == cons_app(s.last(), end));
    }
}

/// The empty list is closed, normal and shallow.
proof fn lemma_nil_plain()
    ensures
        closed(nil_term()),
        is_normal(nil_term()),
        abs_depth(nil_term()) == 3,
        within_limits(nil_term()),
{
    let v2 = Term::Var(2);
    assert(closed_at(v2, 2));
    assert(closed_at(Term::Abs(Box::new(v2)), 1));
    assert(closed_at(true_term(), 0));
    lemma_closed_weaken(true_term(), 0, 1);
    assert(closed(nil_term()));
    assert(step(v2) is None);
    assert(step(Term::Abs(Box::new(v2))) is None);
    assert(step(true_term()) is None);
    assert(is_normal(nil_term()));
    assert(abs_depth(v2) == 0);
    assert(abs_depth(Term::Abs(Box::new(v2))) == 1);
    assert(abs_depth(true_term()) == 2);
    lemma_normal_within_limits(nil_term());
}

/// The unevaluated list of plain elements is closed and shallow.
proof fn lemma_chain_plain(s: Seq<Term>)
    requires
        plain_elements(s),
    ensures
        closed(cons_chain(s, nil_term())),
        shallow(cons_chain(s, nil_term())),
    decreases s.len(),
{
    lemma_nil_plain();
    if s.len() > 0 {
        let rest = s.drop_first();
        assert(plain_elements(rest)) by {
            assert forall|i: int| 0 <= i < rest.len() implies {
                &&& closed(#[trigger] rest[i])
                &&& is_normal(rest[i])
                &&& shallow(rest[i])
            } by {
                assert(rest[i] == s[i + 1]);
            }
        }
        lemma_chain_plain(rest);
        lemma_cons_chain_front(s, nil_term());
        lemma_constants();
        let h = s[0];
        assert(closed(h) && shallow(h));
        assert(closed(app_of(cons_term(), h)));
        assert(abs_depth(app_of(cons_term(), h)) <= 5 + abs_depth(h));
    }
}

/// The list of plain elements normalizes to its cells.
pub proof fn lemma_list_normalizes(s: Seq<Term>) -> (n: nat)
    requires
        plain_elements(s),
    ensures
        reaches_normal(cons_chain(s, nil_term()), n),
        run(cons_chain(s, nil_term()), n) == list_nf(s),
    decreases s.len(),
{
    lemma_nil_plain();
    if s.len() == 0 {
        0
    } else {
        let rest = s.drop_first();
        assert(plain_elements(rest)) by {
            assert forall|i: int| 0 <= i < rest.len() implies {
                &&& closed(#[trigger] rest[i])
                &&& is_normal(rest[i])
                &&& shallow(rest[i])
            } by {
                assert(rest[i] == s[i + 1]);
            }
        }
        let m = lemma_list_normalizes(rest);
        lemma_chain_plain(rest);
        lemma_cons_chain_front(s, nil_term());
        let h = s[0];
        assert(closed(h) && is_normal(h) && shallow(h));
        lemma_cons_normalizes(h, cons_chain(rest, nil_term()), m);
        m + 6
    }
}

/// A cell decodes to its head and its remainder.
proof fn lemma_cell_decodes(h: Term, rest: Term)
    ensures
        spec_uncons(cell(h, rest)) == Ok::<(Term, Term), Error>((h, rest)),
        spec_head(cell(h, rest)) == Ok::<Term, Error>(h),
        spec_tail(cell(h, rest)) == Ok::<Term, Error>(rest),
        cell(h, rest) != nil_term(),
{
    let inner = pair_nf(h, rest);
    assert(spec_snd(app_of(app_of(Term::Var(1), false_term()), inner)) == Ok::<Term, Error>(inner));
    assert(spec_unpair(inner) == Ok::<(Term, Term), Error>((h, rest)));
    assert(pair_core(true_term()) != app_of(app_of(Term::Var(1), false_term()), inner));
}

/// Converting plain terms into a list and taking it apart again with
/// `uncons` gives back each term in order, and then the empty list.
pub proof fn lemma_list_round_trip(s: Seq<Term>)
    requires
        plain_elements(s),
    ensures
        has_normal_form(cons_chain(s, nil_term())),
        normal_form(cons_chain(s, nil_term())) == list_nf(s),
        forall|i: int| 0 <= i < s.len() ==> spec_uncons(#[trigger] list_nf(s.subrange(i, s.len() as int)))
            == Ok::<(Term, Term), Error>((s[i], list_nf(s.subrange(i + 1, s.len() as int)))),
        list_nf(s.subrange(s.len() as int, s.len() as int)) == nil_term(),
{
    let n = lemma_list_normalizes(s);
    lemma_normal_form_is(cons_chain(s, nil_term()), n);
    assert forall|i: int| 0 <= i < s.len() implies spec_uncons(#[trigger] list_nf(s.subrange(i, s.len() as int)))
        == Ok::<(Term, Term), Error>((s[i], list_nf(s.subrange(i + 1, s.len() as int)))) by {
        let sub = s.subrange(i, s.len() as int);
        assert(sub.drop_first() =~= s.subrange(i + 1, s.len() as int));
        lemma_cell_decodes(sub[0], list_nf(sub.drop_first()));
    }
    assert(s.subrange(s.len() as int, s.len() as int).len() == 0);
}

/// The length of a normal list counts its cells.
proof fn lemma_list_nf_len(s: Seq<Term>)
    ensures
        list_len(list_nf(s)) == Ok::<nat, Error>(s.len()),
    decreases s.len(),
{
    if s.len() > 0 {
        lemma_list_nf_len(s.drop_first());
        lemma_cell_decodes(s[0], list_nf(s.drop_first()));
    }
}

/// The list built from `n` plain terms has length `n`.
pub proof fn lemma_list_len(s: Seq<Term>)
    requires
        plain_elements(s),
    ensures
        has_normal_form(cons_chain(s, nil_term())),
        list_len(normal_form(cons_chain(s, nil_term()))) == Ok::<nat, Error>(s.len()),
{
    lemma_list_round_trip(s);
    lemma_list_nf_len(s);
}

/// Pushing a plain term onto the empty list gives a list of length one
/// whose head is that term.
pub proof fn lemma_push_onto_empty(x: Term)
    requires
        closed(x),
        is_normal(x),
        shallow(x),
    ensures
        has_normal_form(cons_app(x, nil_term())),
        list_len(normal_form(cons_app(x, nil_term()))) == Ok::<nat, Error>(1),
        spec_head(normal_form(cons_app(x, nil_term()))) == Ok::<Term, Error>(x),
{
    let s = seq![x];
    assert(plain_elements(s));
    assert(s.drop_last().len() == 0);
    assert(s.last() == x);
    assert(cons_chain(s.drop_last(), cons_app(x, nil_term())) == cons_app(x, nil_term()));
    assert(cons_chain(s, nil_term()) == cons_app(x, nil_term()));
    lemma_list_round_trip(s);
    lemma_list_nf_len(s);
    assert(s.drop_first().len() == 0);
    lemma_cell_decodes(x, nil_term());
}

/// Decoding a pair fails only with `NotAPair`, and the empty list is no pair.
pub proof fn lemma_unpair_rejects(t: Term)
    ensures
        spec_unpair(t) is Err ==> spec_unpair(t) == Err::<(Term, Term), Error>(Error::NotAPair),
        spec_fst(t) is Err ==> spec_fst(t) == Err::<Term, Error>(Error::NotAPair),
        spec_snd(t) is Err ==> spec_snd(t) == Err::<Term, Error>(Error::NotAPair),
        spec_unpair(nil_term()) == Err::<(Term, Term), Error>(Error::NotAPair),
{
}

/// A variable or an application is never a list.
pub proof fn lemma_raw_terms_are_not_lists(t: Term)
    requires
        t !is Abs,
    ensures
        t != nil_term(),
        spec_head(t) == Err::<Term, Error>(Error::NotAbstraction),
        spec_tail(t) == Err::<Term, Error>(Error::NotAbstraction),
{
}

} // verus!
