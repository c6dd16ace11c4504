use vstd::prelude::*;
use crate::term::Term;

verus! {

/// The largest variable index that occurs anywhere in `t` (0 when none does).
pub open spec fn max_var(t: Term) -> nat
    decreases t,
{
    match t {
        Term::Var(i) => i as nat,
        Term::Abs(b) => max_var(*b),
        Term::App(f, a) => {
            let (x, y) = (max_var(*f), max_var(*a));
            if x >= y { x } else { y }
        },
    }
}

/// The deepest nesting of abstractions in `t`.
pub open spec fn abs_depth(t: Term) -> nat
    decreases t,
{
    match t {
        Term::Var(_) => 0,
        Term::Abs(b) => abs_depth(*b) + 1,
        Term::App(f, a) => {
            let (x, y) = (abs_depth(*f), abs_depth(*a));
            if x >= y { x } else { y }
        },
    }
}

/// Contracting the redex `(λ. body) arg` computes only indices and binder
/// depths that fit in a `usize`.
pub open spec fn redex_fits(body: Term, arg: Term) -> bool {
    &&& max_var(arg) + abs_depth(body) <= usize::MAX
    &&& abs_depth(body) < usize::MAX
    &&& abs_depth(arg) <= usize::MAX
}

/// Every redex in `t` can be contracted within machine limits.
pub open spec fn within_limits(t: Term) -> bool
    decreases t,
{
    match t {
        Term::Var(_) => true,
        Term::Abs(b) => within_limits(*b),
        Term::App(f, a) => {
            &&& within_limits(*f)
            &&& within_limits(*a)
            &&& match *f {
                Term::Abs(body) => redex_fits(*body, *a),
                _ => true,
            }
        },
    }
}

/// `t` with every variable above `cutoff` raised by `k`.
pub open spec fn shifted(t: Term, k: nat, cutoff: nat) -> Term
    decreases t,
{
    match t {
        Term::Var(i) => if i > cutoff {
            Term::Var((i + k) as usize)
        } else {
            Term::Var(i)
        },
        Term::Abs(b) => Term::Abs(Box::new(shifted(*b, k, cutoff + 1))),
        Term::App(f, a) => Term::App(Box::new(shifted(*f, k, cutoff)), Box::new(shifted(*a, k, cutoff))),
    }
}

/// `body` with the variable bound at `depth` replaced by `r`, each copy of `r`
/// shifted by `depth - 1`, and the variables above `depth` lowered by one.
pub open spec fn substituted(body: Term, depth: nat, r: Term) -> Term
    decreases body,
{
    match body {
        Term::Var(i) => if i == depth {
            shifted(r, (depth - 1) as nat, 0)
        } else if i > depth {
            Term::Var((i - 1) as usize)
        } else {
            Term::Var(i)
        },
        Term::Abs(b) => Term::Abs(Box::new(substituted(*b, depth + 1, r))),
        Term::App(f, a) => Term::App(
            Box::new(substituted(*f, depth, r)),
            Box::new(substituted(*a, depth, r)),
        ),
    }
}

/// One step of normal-order reduction: the leftmost-outermost redex is
/// contracted; `None` when `t` holds no redex.
pub open spec fn step(t: Term) -> Option<Term>
    decreases t,
{
    match t {
        Term::Var(_) => None,
        Term::Abs(b) => match step(*b) {
            Some(b2) => Some(Term::Abs(Box::new(b2))),
            None => None,
        },
        Term::App(f, a) => match *f {
            Term::Abs(body) => Some(substituted(*body, 1, *a)),
            _ => match step(*f) {
                Some(f2) => Some(Term::App(Box::new(f2), a)),
                None => match step(*a) {
                    Some(a2) => Some(Term::App(f, Box::new(a2))),
                    None => None,
                },
            },
        },
    }
}

/// `t` is an abstraction applied to an argument.
pub open spec fn is_redex(t: Term) -> bool {
    match t {
        Term::App(f, _) => *f is Abs,
        _ => false,
    }
}

/// `t` is in normal form: it contains no redex.
pub open spec fn is_normal(t: Term) -> bool {
    step(t) is None
}

/// Normal-order reduction of `t` reaches a normal form in at most `n` steps,
/// every term on the way staying within machine limits.
pub open spec fn reaches_normal(t: Term, n: nat) -> bool
    decreases n,
{
    &&& within_limits(t)
    &&& match step(t) {
        None => true,
        Some(t2) => n > 0 && reaches_normal(t2, (n - 1) as nat),
    }
}

/// `t` has a normal form that normal-order reduction finds.
pub open spec fn has_normal_form(t: Term) -> bool {
    exists|n: nat| reaches_normal(t, n)
}

/// The term reached after at most `n` normal-order steps from `t`.
pub open spec fn run(t: Term, n: nat) -> Term
    decreases n,
{
    match step(t) {
        None => t,
        Some(t2) => if n == 0 {
            t
        } else {
            run(t2, (n - 1) as nat)
        },
    }
}

/// The normal form of `t`, where it has one.
pub open spec fn normal_form(t: Term) -> Term {
    run(t, choose|n: nat| reaches_normal(t, n))
}

/// Any step budget that suffices leads to the same term, and that term is normal.
pub proof fn lemma_run_unique(t: Term, n: nat, m: nat)
    requires
        reaches_normal(t, n),
        reaches_normal(t, m),
    ensures
        run(t, n) == run(t, m),
        is_normal(run(t, n)),
        within_limits(run(t, n)),
    decreases n,
{
    if let Some(t2) = step(t) {
        lemma_run_unique(t2, (n - 1) as nat, (m - 1) as nat);
    }
}

/// Copies `t` with every variable above `cutoff` raised by `k`.
pub fn shift(t: &Term, k: usize, cutoff: usize) -> (r: Term)
    requires
        max_var(*t) + k <= usize::MAX,
        cutoff + abs_depth(*t) <= usize::MAX,
    ensures
        r == shifted(*t, k as nat, cutoff as nat),
    decreases t,
{
    match t {
        Term::Var(i) => if *i > cutoff {
            Term::Var(*i + k)
        } else {
            Term::Var(*i)
        },
        Term::Abs(b) => Term::Abs(Box::new(shift(&**b, k, cutoff + 1))),
        Term::App(f, a) => Term::App(Box::new(shift(&**f, k, cutoff)), Box::new(shift(&**a, k, cutoff))),
    }
}

/// Replaces the variable bound at `depth` in `body` by `replacement`,
/// renumbering indices as `substituted` describes.
pub fn substitute(body: Term, depth: usize, replacement: &Term) -> (r: Term)
    requires
        depth >= 1,
        max_var(*replacement) + depth + abs_depth(body) <= usize::MAX + 1,
        depth + abs_depth(body) <= usize::MAX,
        abs_depth(*replacement) <= usize::MAX,
    ensures
        r == substituted(body, depth as nat, *replacement),
    decreases body,
{
    match body {
        Term::Var(i) => if i == depth {
            shift(replacement, depth - 1, 0)
        } else if i > depth {
            Term::Var(i - 1)
        } else {
            Term::Var(i)
        },
        Term::Abs(b) => Term::Abs(Box::new(substitute(*b, depth + 1, replacement))),
        Term::App(f, a) => {
            let f2 = substitute(*f, depth, replacement);
            let a2 = substitute(*a, depth, replacement);
            Term::App(Box::new(f2), Box::new(a2))
        },
    }
}

/// Contracts the redex `(λ. body) argument` into `body` with `argument` put
/// for the bound variable.
pub fn beta_reduce(redex: Term) -> (r: Term)
    requires
        is_redex(redex),
        within_limits(redex),
    ensures
        r == substituted(*(*redex->App_0)->Abs_0, 1, *redex->App_1),
        r == step(redex)->Some_0,
{
    match redex {
        Term::App(f, a) => match *f {
            Term::Abs(body) => substitute(*body, 1, &*a),
            _ => Term::App(f, a),
        },
        _ => redex,
    }
}

/// Performs one normal-order step; the flag tells whether a redex was found.
pub fn reduce_step(t: Term) -> (r: (Term, bool))
    requires
        within_limits(t),
    ensures
        match step(t) {
            Some(t2) => r == (t2, true),
            None => r == (t, false),
        },
    decreases t,
{
    match t {
        Term::Var(i) => (Term::Var(i), false),
        Term::Abs(b) => {
            let (b2, changed) = reduce_step(*b);
            (Term::Abs(Box::new(b2)), changed)
        },
        Term::App(f, a) => {
            if let Term::Abs(_) = &*f {
                (beta_reduce(Term::App(f, a)), true)
            } else {
                let (f2, changed) = reduce_step(*f);
                if changed {
                    (Term::App(Box::new(f2), a), true)
                } else {
                    let (a2, changed) = reduce_step(*a);
                    (Term::App(Box::new(f2), Box::new(a2)), changed)
                }
            }
        },
    }
}

/// Reduces `t` to its normal form by repeatedly contracting the
/// leftmost-outermost redex.
pub fn normalize(t: Term) -> (r: Term)
    requires
        has_normal_form(t),
    ensures
        r == normal_form(t),
        is_normal(r),
{
    let ghost n = choose|n: nat| reaches_normal(t, n);
    let ghost mut m: nat = n;
    let mut cur = t;
    loop
        invariant
            reaches_normal(cur, m),
            run(cur, m) == normal_form(t),
        decreases m,
    {
        let (next, changed) = reduce_step(cur);
        if !changed {
            return next;
        }
        cur = next;
        proof {
            m = (m - 1) as nat;
        }
    }
}

/// Substituting at `depth` lowers every variable above `depth` by one, keeps
/// every variable below it, and puts for the variable at `depth` the
/// replacement with its free variables raised by exactly `depth - 1`.
pub proof fn lemma_substitution_renumbers(k: usize, depth: nat, r: Term)
    requires
        depth >= 1,
    ensures
        k > depth ==> substituted(Term::Var(k), depth, r) == Term::Var((k - 1) as usize),
        k < depth ==> substituted(Term::Var(k), depth, r) == Term::Var(k),
        k == depth ==> substituted(Term::Var(k), depth, r) == shifted(r, (depth - 1) as nat, 0),
        forall|i: usize| i > 0 ==> #[trigger] shifted(Term::Var(i), (depth - 1) as nat, 0)
            == Term::Var((i + depth - 1) as usize),
{
}

/// A normal form is its own normal form: normalizing twice gives what
/// normalizing once gives.
pub proof fn lemma_normalize_idempotent(t: Term)
    requires
        has_normal_form(t),
    ensures
        has_normal_form(normal_form(t)),
        normal_form(normal_form(t)) == normal_form(t),
{
    let n = choose|n: nat| reaches_normal(t, n);
    lemma_run_unique(t, n, n);
    let nf = normal_form(t);
    assert(reaches_normal(nf, 0));
    let m = choose|m: nat| reaches_normal(nf, m);
    assert(normal_form(nf) == run(nf, m));
}

/// Every free variable of `t` is bound by one of `n` binders around it.
pub open spec fn closed_at(t: Term, n: nat) -> bool
    decreases t,
{
    match t {
        Term::Var(i) => i <= n,
        Term::Abs(b) => closed_at(*b, n + 1),
        Term::App(f, a) => closed_at(*f, n) && closed_at(*a, n),
    }
}

/// `t` has no free variables.
pub open spec fn closed(t: Term) -> bool {
    closed_at(t, 0)
}

/// A term closed under `n` binders is closed under more.
pub proof fn lemma_closed_weaken(t: Term, n: nat, m: nat)
    requires
        closed_at(t, n),
        n <= m,
    ensures
        closed_at(t, m),
    decreases t,
{
    match t {
        Term::Var(_) => {},
        Term::Abs(b) => lemma_closed_weaken(*b, n + 1, m + 1),
        Term::App(f, a) => {
            lemma_closed_weaken(*f, n, m);
            lemma_closed_weaken(*a, n, m);
        },
    }
}

/// Shifting above the binders that close a term leaves it as it is.
pub proof fn lemma_shift_closed(t: Term, k: nat, c: nat)
    requires
        closed_at(t, c),
    ensures
        shifted(t, k, c) == t,
    decreases t,
{
    match t {
        Term::Var(_) => {},
        Term::Abs(b) => lemma_shift_closed(*b, k, c + 1),
        Term::App(f, a) => {
            lemma_shift_closed(*f, k, c);
            lemma_shift_closed(*a, k, c);
        },
    }
}

/// Substituting for a variable that a term cannot see leaves it as it is.
pub proof fn lemma_subst_closed(t: Term, d: nat, r: Term)
    requires
        d >= 1,
        closed_at(t, (d - 1) as nat),
    ensures
        substituted(t, d, r) == t,
    decreases t,
{
    match t {
        Term::Var(_) => {},
        Term::Abs(b) => lemma_subst_closed(*b, d + 1, r),
        Term::App(f, a) => {
            lemma_subst_closed(*f, d, r);
            lemma_subst_closed(*a, d, r);
        },
    }
}

/// The indices of a term closed under `n` binders stay below `n` plus its depth.
pub proof fn lemma_max_var_closed(t: Term, n: nat)
    requires
        closed_at(t, n),
    ensures
        max_var(t) <= n + abs_depth(t),
    decreases t,
{
    match t {
        Term::Var(_) => {},
        Term::Abs(b) => lemma_max_var_closed(*b, n + 1),
        Term::App(f, a) => {
            lemma_max_var_closed(*f, n);
            lemma_max_var_closed(*a, n);
        },
    }
}

/// A term without redexes has none that exceeds machine limits.
pub proof fn lemma_normal_within_limits(t: Term)
    requires
        is_normal(t),
    ensures
        within_limits(t),
    decreases t,
{
    match t {
        Term::Var(_) => {},
        Term::Abs(b) => lemma_normal_within_limits(*b),
        Term::App(f, a) => {
            lemma_normal_within_limits(*f);
            lemma_normal_within_limits(*a);
        },
    }
}

/// Where `n` steps suffice, the normal form is the term reached after them.
pub proof fn lemma_normal_form_is(t: Term, n: nat)
    requires
        reaches_normal(t, n),
    ensures
        has_normal_form(t),
        normal_form(t) == run(t, n),
        is_normal(normal_form(t)),
{
    let m = choose|m: nat| reaches_normal(t, m);
    lemma_run_unique(t, n, m);
}

/// Reduction under an abstraction proceeds as it does without it.
pub proof fn lemma_run_under_abs(x: Term, n: nat)
    requires
        reaches_normal(x, n),
    ensures
        reaches_normal(Term::Abs(Box::new(x)), n),
        run(Term::Abs(Box::new(x)), n) == Term::Abs(Box::new(run(x, n))),
    decreases n,
{
    if let Some(x2) = step(x) {
        lemma_run_under_abs(x2, (n - 1) as nat);
    }
}

/// Reduction of the argument of a normal term that is no abstraction
/// proceeds as it does on the argument alone.
pub proof fn lemma_run_under_app(f: Term, x: Term, n: nat)
    requires
        is_normal(f),
        f !is Abs,
        reaches_normal(x, n),
    ensures
        reaches_normal(Term::App(Box::new(f), Box::new(x)), n),
        run(Term::App(Box::new(f), Box::new(x)), n) == Term::App(Box::new(f), Box::new(run(x, n))),
    decreases n,
{
    lemma_normal_within_limits(f);
    if let Some(x2) = step(x) {
        lemma_run_under_app(f, x2, (n - 1) as nat);
    }
}

/// A closed term of modest depth can be reduced within machine limits.
pub proof fn lemma_closed_within_limits(t: Term, k: nat)
    requires
        closed_at(t, k),
        k + 2 * abs_depth(t) <= usize::MAX,
    ensures
        within_limits(t),
    decreases t,
{
    match t {
        Term::Var(_) => {},
        Term::Abs(b) => lemma_closed_within_limits(*b, k + 1),
        Term::App(f, a) => {
            lemma_closed_within_limits(*f, k);
            lemma_closed_within_limits(*a, k);
            lemma_max_var_closed(*a, k);
            if let Term::Abs(body) = *f {
                assert(abs_depth(*f) == abs_depth(*body) + 1);
            }
        },
    }
}

} // verus!
