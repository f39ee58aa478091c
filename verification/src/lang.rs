//! The language an expression tree denotes, and the laws the algebra obeys
//! with respect to it: the nullability reduction and the derivative are
//! faithful to the language, simplification preserves it, and the matcher is
//! sound for it.

use vstd::prelude::*;

use crate::expr::Expr;
use crate::expr::lemma_simplify_size;
use crate::expr::spec_contains_epsilon;
use crate::expr::spec_derivative;
use crate::expr::spec_is_match;
use crate::expr::spec_match_state;
use crate::expr::spec_nullable;
use crate::expr::spec_nulled;
use crate::expr::spec_simplify;
use crate::expr::spec_simplify_to_end;
use crate::expr::spec_size;

verus! {

/// Membership of the string `s` in the language of `e`: a term holds exactly
/// its one character, a concatenation splits the string, a star is zero or
/// more non-empty chunks of its base.
pub open spec fn in_lang(e: Expr, s: Seq<char>) -> bool
    decreases s.len(), spec_size(e),
{
    match e {
        Expr::Term(t) => s.len() == 1 && s[0] == t,
        Expr::Concat(l, r) => exists|k: int|
            0 <= k <= s.len() && in_lang(*l, s.subrange(0, k)) && in_lang(
                *r,
                s.subrange(k, s.len() as int),
            ),
        Expr::Kleene(b) => s.len() == 0 || exists|k: int|
            1 <= k <= s.len() && in_lang(*b, s.subrange(0, k)) && in_lang(
                Expr::Kleene(b),
                s.subrange(k, s.len() as int),
            ),
        Expr::Union(l, r) => in_lang(*l, s) || in_lang(*r, s),
        Expr::Epsilon => s.len() == 0,
        Expr::Empty => false,
    }
}

/// Nullability agrees with the language: `e` is nullable exactly when its
/// language contains the empty string.
pub proof fn lemma_nullable_empty(e: Expr)
    ensures
        in_lang(e, Seq::<char>::empty()) == spec_nullable(e),
    decreases e,
{
    let s = Seq::<char>::empty();
    match e {
        Expr::Concat(l, r) => {
            lemma_nullable_empty(*l);
            lemma_nullable_empty(*r);
            assert(s.subrange(0, 0) =~= s);
            if spec_nullable(*l) && spec_nullable(*r) {
                assert(in_lang(*l, s.subrange(0, 0)) && in_lang(*r, s.subrange(0, 0)));
                assert(in_lang(e, s));
            }
            if in_lang(e, s) {
                let k = choose|k: int|
                    0 <= k <= s.len() && in_lang(*l, s.subrange(0, k)) && in_lang(
                        *r,
                        s.subrange(k, s.len() as int),
                    );
                assert(k == 0);
            }
        }
        Expr::Union(l, r) => {
            lemma_nullable_empty(*l);
            lemma_nullable_empty(*r);
        }
        _ => {}
    }
}

/// The nullability reduction is faithful: the language of `nulled(e)` is
/// exactly the empty string when `e` is nullable, and empty otherwise.
pub proof fn lemma_nulled_lang(e: Expr, s: Seq<char>)
    ensures
        in_lang(spec_nulled(e), s) == (spec_nullable(e) && s.len() == 0),
    decreases e,
{
    match e {
        Expr::Concat(l, r) => {
            let nl = spec_nulled(*l);
            let nr = spec_nulled(*r);
            if in_lang(spec_nulled(e), s) {
                let k = choose|k: int|
                    0 <= k <= s.len() && in_lang(nl, s.subrange(0, k)) && in_lang(
                        nr,
                        s.subrange(k, s.len() as int),
                    );
                lemma_nulled_lang(*l, s.subrange(0, k));
                lemma_nulled_lang(*r, s.subrange(k, s.len() as int));
            }
            if spec_nullable(e) && s.len() == 0 {
                lemma_nulled_lang(*l, s.subrange(0, 0));
                lemma_nulled_lang(*r, s.subrange(0, 0));
                assert(s.subrange(0, 0) =~= s);
                assert(in_lang(nl, s.subrange(0, 0)) && in_lang(nr, s.subrange(0, 0)));
                assert(in_lang(spec_nulled(e), s));
            }
        }
        Expr::Union(l, r) => {
            lemma_nulled_lang(*l, s);
            lemma_nulled_lang(*r, s);
        }
        _ => {}
    }
}

/// The derivative theorem: the language of the derivative of `e` with
/// respect to `c` holds `s` exactly when the language of `e` holds `c`
/// followed by `s`.
pub proof fn lemma_derivative_lang(e: Expr, c: char, s: Seq<char>)
    ensures
        in_lang(spec_derivative(e, c), s) == in_lang(e, seq![c] + s),
    decreases e,
{
    let cs = seq![c] + s;
    match e {
        Expr::Term(t) => {
            if t == c && s.len() == 0 {
                assert(cs.len() == 1 && cs[0] == t);
            }
        }
        Expr::Union(l, r) => {
            lemma_derivative_lang(*l, c, s);
            lemma_derivative_lang(*r, c, s);
        }
        Expr::Concat(l, r) => {
            let dl = spec_derivative(*l, c);
            let dr = spec_derivative(*r, c);
            let nl = spec_nulled(*l);
            let left_part = Expr::Concat(Box::new(dl), Box::new(*r));
            let right_part = Expr::Concat(Box::new(nl), Box::new(dr));
            assert(spec_derivative(e, c) == Expr::Union(
                Box::new(left_part),
                Box::new(right_part),
            ));
            if in_lang(spec_derivative(e, c), s) {
                assert(in_lang(left_part, s) || in_lang(right_part, s));
                if in_lang(left_part, s) {
                    let k = choose|k: int|
                        0 <= k <= s.len() && in_lang(dl, s.subrange(0, k)) && in_lang(
                            *r,
                            s.subrange(k, s.len() as int),
                        );
                    lemma_derivative_lang(*l, c, s.subrange(0, k));
                    assert(seq![c] + s.subrange(0, k) =~= cs.subrange(0, k + 1));
                    assert(s.subrange(k, s.len() as int) =~= cs.subrange(k + 1, cs.len() as int));
                    assert(in_lang(*l, cs.subrange(0, k + 1)));
                    assert(in_lang(*r, cs.subrange(k + 1, cs.len() as int)));
                    assert(in_lang(e, cs));
                } else {
                    let k = choose|k: int|
                        0 <= k <= s.len() && in_lang(nl, s.subrange(0, k)) && in_lang(
                            dr,
                            s.subrange(k, s.len() as int),
                        );
                    lemma_nulled_lang(*l, s.subrange(0, k));
                    lemma_nullable_empty(*l);
                    assert(k == 0);
                    assert(s.subrange(0, s.len() as int) =~= s);
                    lemma_derivative_lang(*r, c, s);
                    assert(in_lang(*r, cs));
                    assert(cs.subrange(0, 0) =~= Seq::<char>::empty());
                    assert(in_lang(*l, cs.subrange(0, 0)));
                    assert(cs.subrange(0, cs.len() as int) =~= cs);
                    assert(in_lang(*r, cs.subrange(0, cs.len() as int)));
                    assert(in_lang(e, cs));
                }
            }
            if in_lang(e, cs) {
                let k = choose|k: int|
                    0 <= k <= cs.len() && in_lang(*l, cs.subrange(0, k)) && in_lang(
                        *r,
                        cs.subrange(k, cs.len() as int),
                    );
                if k == 0 {
                    assert(cs.subrange(0, 0) =~= Seq::<char>::empty());
                    lemma_nullable_empty(*l);
                    assert(cs.subrange(0, cs.len() as int) =~= cs);
                    lemma_derivative_lang(*r, c, s);
                    lemma_nulled_lang(*l, s.subrange(0, 0));
                    assert(s.subrange(0, 0) =~= Seq::<char>::empty());
                    assert(s.subrange(0, s.len() as int) =~= s);
                    assert(in_lang(nl, s.subrange(0, 0)));
                    assert(in_lang(dr, s.subrange(0, s.len() as int)));
                    assert(in_lang(right_part, s));
                } else {
                    assert(seq![c] + s.subrange(0, k - 1) =~= cs.subrange(0, k));
                    lemma_derivative_lang(*l, c, s.subrange(0, k - 1));
                    assert(cs.subrange(k, cs.len() as int) =~= s.subrange(k - 1, s.len() as int));
                    assert(in_lang(dl, s.subrange(0, k - 1)));
                    assert(in_lang(*r, s.subrange(k - 1, s.len() as int)));
                    assert(in_lang(left_part, s));
                }
                assert(in_lang(spec_derivative(e, c), s));
            }
        }
        Expr::Kleene(b) => {
            let db = spec_derivative(*b, c);
            if in_lang(spec_derivative(e, c), s) {
                let k = choose|k: int|
                    0 <= k <= s.len() && in_lang(db, s.subrange(0, k)) && in_lang(
                        e,
                        s.subrange(k, s.len() as int),
                    );
                lemma_derivative_lang(*b, c, s.subrange(0, k));
                assert(seq![c] + s.subrange(0, k) =~= cs.subrange(0, k + 1));
                assert(s.subrange(k, s.len() as int) =~= cs.subrange(k + 1, cs.len() as int));
                assert(in_lang(*b, cs.subrange(0, k + 1)));
                assert(in_lang(e, cs.subrange(k + 1, cs.len() as int)));
                assert(in_lang(e, cs));
            }
            if in_lang(e, cs) {
                let k = choose|k: int|
                    1 <= k <= cs.len() && in_lang(*b, cs.subrange(0, k)) && in_lang(
                        e,
                        cs.subrange(k, cs.len() as int),
                    );
                assert(seq![c] + s.subrange(0, k - 1) =~= cs.subrange(0, k));
                lemma_derivative_lang(*b, c, s.subrange(0, k - 1));
                assert(cs.subrange(k, cs.len() as int) =~= s.subrange(k - 1, s.len() as int));
                assert(in_lang(db, s.subrange(0, k - 1)));
                assert(in_lang(e, s.subrange(k - 1, s.len() as int)));
                assert(in_lang(spec_derivative(e, c), s));
            }
        }
        _ => {}
    }
}

/// The star language is closed under concatenation of its members.
proof fn lemma_star_append(x: Expr, u: Seq<char>, v: Seq<char>)
    requires
        in_lang(Expr::Kleene(Box::new(x)), u),
        in_lang(Expr::Kleene(Box::new(x)), v),
    ensures
        in_lang(Expr::Kleene(Box::new(x)), u + v),
    decreases u.len(),
{
    let star = Expr::Kleene(Box::new(x));
    if u.len() == 0 {
        assert(u + v =~= v);
    } else {
        let k = choose|k: int|
            1 <= k <= u.len() && in_lang(x, u.subrange(0, k)) && in_lang(
                star,
                u.subrange(k, u.len() as int),
            );
        lemma_star_append(x, u.subrange(k, u.len() as int), v);
        let uv = u + v;
        assert(uv.subrange(0, k) =~= u.subrange(0, k));
        assert(uv.subrange(k, uv.len() as int) =~= u.subrange(k, u.len() as int) + v);
        assert(in_lang(x, uv.subrange(0, k)));
        assert(in_lang(star, uv.subrange(k, uv.len() as int)));
        assert(in_lang(star, uv));
    }
}

/// Star idempotence at the language level: starring a star adds nothing.
proof fn lemma_star_star(x: Expr, s: Seq<char>)
    ensures
        in_lang(Expr::Kleene(Box::new(Expr::Kleene(Box::new(x)))), s) == in_lang(
            Expr::Kleene(Box::new(x)),
            s,
        ),
    decreases s.len(),
{
    let star = Expr::Kleene(Box::new(x));
    let star2 = Expr::Kleene(Box::new(star));
    if s.len() > 0 {
        if in_lang(star2, s) {
            let k = choose|k: int|
                1 <= k <= s.len() && in_lang(star, s.subrange(0, k)) && in_lang(
                    star2,
                    s.subrange(k, s.len() as int),
                );
            lemma_star_star(x, s.subrange(k, s.len() as int));
            lemma_star_append(x, s.subrange(0, k), s.subrange(k, s.len() as int));
            assert(s.subrange(0, k) + s.subrange(k, s.len() as int) =~= s);
        }
        if in_lang(star, s) {
            assert(s.subrange(0, s.len() as int) =~= s);
            assert(s.subrange(s.len() as int, s.len() as int) =~= Seq::<char>::empty());
            assert(in_lang(star2, s.subrange(s.len() as int, s.len() as int)));
            assert(in_lang(star, s.subrange(0, s.len() as int)));
            assert(in_lang(star2, s));
        }
    }
}

/// Languages agreeing on every string keep agreeing under the star.
proof fn lemma_star_cong(a: Expr, b: Expr, s: Seq<char>)
    requires
        forall|t: Seq<char>| in_lang(a, t) == in_lang(b, t),
    ensures
        in_lang(Expr::Kleene(Box::new(a)), s) == in_lang(Expr::Kleene(Box::new(b)), s),
    decreases s.len(),
{
    let sa = Expr::Kleene(Box::new(a));
    let sb = Expr::Kleene(Box::new(b));
    if s.len() > 0 {
        if in_lang(sa, s) {
            let k = choose|k: int|
                1 <= k <= s.len() && in_lang(a, s.subrange(0, k)) && in_lang(
                    sa,
                    s.subrange(k, s.len() as int),
                );
            lemma_star_cong(a, b, s.subrange(k, s.len() as int));
            assert(in_lang(b, s.subrange(0, k)));
            assert(in_lang(sb, s.subrange(k, s.len() as int)));
            assert(in_lang(sb, s));
        }
        if in_lang(sb, s) {
            let k = choose|k: int|
                1 <= k <= s.len() && in_lang(b, s.subrange(0, k)) && in_lang(
                    sb,
                    s.subrange(k, s.len() as int),
                );
            lemma_star_cong(a, b, s.subrange(k, s.len() as int));
            assert(in_lang(a, s.subrange(0, k)));
            assert(in_lang(sa, s.subrange(k, s.len() as int)));
            assert(in_lang(sa, s));
        }
    }
}

/// One simplification pass preserves the language, on every string.
pub proof fn lemma_simplify_lang(e: Expr)
    ensures
        forall|s: Seq<char>| in_lang(spec_simplify(e), s) == in_lang(e, s),
    decreases e,
{
    match e {
        Expr::Concat(l, r) => {
            lemma_simplify_lang(*l);
            lemma_simplify_lang(*r);
            let sl = spec_simplify(*l);
            let sr = spec_simplify(*r);
            if *l == Expr::Empty || *r == Expr::Empty {
                assert forall|s: Seq<char>| in_lang(spec_simplify(e), s) == in_lang(e, s) by {
                    if in_lang(e, s) {
                        let k = choose|k: int|
                            0 <= k <= s.len() && in_lang(*l, s.subrange(0, k)) && in_lang(
                                *r,
                                s.subrange(k, s.len() as int),
                            );
                        assert(false);
                    }
                }
            } else if *l == Expr::Epsilon {
                assert forall|s: Seq<char>| in_lang(spec_simplify(e), s) == in_lang(e, s) by {
                    assert(s.subrange(0, s.len() as int) =~= s);
                    if in_lang(e, s) {
                        let k = choose|k: int|
                            0 <= k <= s.len() && in_lang(*l, s.subrange(0, k)) && in_lang(
                                *r,
                                s.subrange(k, s.len() as int),
                            );
                        assert(k == 0);
                    }
                    if in_lang(spec_simplify(e), s) {
                        assert(in_lang(*r, s));
                        assert(s.subrange(0, 0) =~= Seq::<char>::empty());
                        assert(in_lang(*l, s.subrange(0, 0)));
                        assert(in_lang(*r, s.subrange(0, s.len() as int)));
                        assert(in_lang(e, s));
                    }
                }
            } else if *r == Expr::Epsilon {
                assert forall|s: Seq<char>| in_lang(spec_simplify(e), s) == in_lang(e, s) by {
                    assert(s.subrange(0, s.len() as int) =~= s);
                    if in_lang(e, s) {
                        let k = choose|k: int|
                            0 <= k <= s.len() && in_lang(*l, s.subrange(0, k)) && in_lang(
                                *r,
                                s.subrange(k, s.len() as int),
                            );
                        assert(k == s.len());
                        assert(in_lang(*l, s.subrange(0, k)));
                    }
                    if in_lang(spec_simplify(e), s) {
                        assert(in_lang(*l, s));
                        assert(s.subrange(s.len() as int, s.len() as int) =~= Seq::<
                            char,
                        >::empty());
                        assert(in_lang(*l, s.subrange(0, s.len() as int)));
                        assert(in_lang(*r, s.subrange(s.len() as int, s.len() as int)));
                        assert(in_lang(e, s));
                    }
                }
            } else {
                let se = Expr::Concat(Box::new(sl), Box::new(sr));
                assert(spec_simplify(e) == se);
                assert forall|s: Seq<char>| in_lang(spec_simplify(e), s) == in_lang(e, s) by {
                    if in_lang(e, s) {
                        let k = choose|k: int|
                            0 <= k <= s.len() && in_lang(*l, s.subrange(0, k)) && in_lang(
                                *r,
                                s.subrange(k, s.len() as int),
                            );
                        assert(in_lang(sl, s.subrange(0, k)));
                        assert(in_lang(sr, s.subrange(k, s.len() as int)));
                        assert(in_lang(se, s));
                    }
                    if in_lang(se, s) {
                        let k = choose|k: int|
                            0 <= k <= s.len() && in_lang(sl, s.subrange(0, k)) && in_lang(
                                sr,
                                s.subrange(k, s.len() as int),
                            );
                        assert(in_lang(*l, s.subrange(0, k)));
                        assert(in_lang(*r, s.subrange(k, s.len() as int)));
                        assert(in_lang(e, s));
                    }
                }
            }
        }
        Expr::Union(l, r) => {
            lemma_simplify_lang(*l);
            lemma_simplify_lang(*r);
            assert forall|s: Seq<char>| in_lang(spec_simplify(e), s) == in_lang(e, s) by {
                assert(in_lang(e, s) == (in_lang(*l, s) || in_lang(*r, s)));
                if !(*l == Expr::Empty) && !(*r == Expr::Empty) {
                    assert(spec_simplify(e) == Expr::Union(
                        Box::new(spec_simplify(*l)),
                        Box::new(spec_simplify(*r)),
                    ));
                }
            }
        }
        Expr::Kleene(b) => {
            match *b {
                Expr::Kleene(inner) => {
                    lemma_simplify_lang(*inner);
                    assert forall|s: Seq<char>| in_lang(spec_simplify(e), s) == in_lang(e, s) by {
                        lemma_star_cong(spec_simplify(*inner), *inner, s);
                        lemma_star_star(*inner, s);
                    }
                }
                Expr::Empty => {
                    assert forall|s: Seq<char>| in_lang(spec_simplify(e), s) == in_lang(e, s) by {
                        if in_lang(e, s) && s.len() > 0 {
                            let k = choose|k: int|
                                1 <= k <= s.len() && in_lang(*b, s.subrange(0, k)) && in_lang(
                                    e,
                                    s.subrange(k, s.len() as int),
                                );
                            assert(false);
                        }
                    }
                }
                Expr::Epsilon => {
                    assert forall|s: Seq<char>| in_lang(spec_simplify(e), s) == in_lang(e, s) by {
                        if in_lang(e, s) && s.len() > 0 {
                            let k = choose|k: int|
                                1 <= k <= s.len() && in_lang(*b, s.subrange(0, k)) && in_lang(
                                    e,
                                    s.subrange(k, s.len() as int),
                                );
                            assert(s.subrange(0, k).len() == k);
                            assert(false);
                        }
                    }
                }
                _ => {
                    lemma_simplify_lang(*b);
                    assert forall|s: Seq<char>| in_lang(spec_simplify(e), s) == in_lang(e, s) by {
                        lemma_star_cong(spec_simplify(*b), *b, s);
                    }
                }
            }
        }
        _ => {}
    }
}

/// Full simplification reaches a fixpoint of the rewriting pass.
pub proof fn lemma_ste_fixpoint(e: Expr)
    ensures
        spec_simplify(spec_simplify_to_end(e)) == spec_simplify_to_end(e),
    decreases spec_size(e),
{
    lemma_simplify_size(e);
    if spec_simplify(e) != e {
        lemma_ste_fixpoint(spec_simplify(e));
    }
}

/// Idempotence: simplifying to the end a second time changes nothing.
pub proof fn lemma_simplify_to_end_idempotent(e: Expr)
    ensures
        spec_simplify_to_end(spec_simplify_to_end(e)) == spec_simplify_to_end(e),
{
    lemma_ste_fixpoint(e);
}

/// Full simplification preserves the language, on every string.
pub proof fn lemma_ste_lang(e: Expr)
    ensures
        forall|s: Seq<char>| in_lang(spec_simplify_to_end(e), s) == in_lang(e, s),
    decreases spec_size(e),
{
    lemma_simplify_size(e);
    lemma_simplify_lang(e);
    if spec_simplify(e) != e {
        lemma_ste_lang(spec_simplify(e));
    }
}

/// The nullability check is sound: when the fully simplified nullability
/// reduction is `Epsilon`, the language of `e` does contain the empty
/// string; and when `e` is not nullable, the check never claims it is.
pub proof fn lemma_contains_epsilon_sound(e: Expr)
    ensures
        spec_contains_epsilon(e) ==> spec_nullable(e),
{
    if spec_contains_epsilon(e) {
        lemma_ste_lang(spec_nulled(e));
        assert(in_lang(Expr::Epsilon, Seq::<char>::empty()));
        assert(in_lang(spec_nulled(e), Seq::<char>::empty()));
        lemma_nulled_lang(e, Seq::<char>::empty());
    }
}

/// Whether the algebra decides nullability on this tree: when the tree is
/// nullable, its fully simplified nullability reduction is the `Epsilon`
/// leaf itself. On trees where simplification instead stalls on a union of
/// nullable branches, the nullability check answers false although the
/// language contains the empty string.
pub open spec fn nullability_decided(e: Expr) -> bool {
    spec_nullable(e) ==> spec_simplify_to_end(spec_nulled(e)) == Expr::Epsilon
}

/// Where nullability is decided, the check agrees with the language.
pub proof fn lemma_contains_epsilon_complete(e: Expr)
    requires
        nullability_decided(e),
    ensures
        spec_contains_epsilon(e) == spec_nullable(e),
{
    lemma_contains_epsilon_sound(e);
}

/// The matcher invariant: after consuming `i` characters, the state accepts
/// the rest of the input exactly when the starting tree accepts the whole.
pub proof fn lemma_match_state_lang(e: Expr, s: Seq<char>, i: int)
    requires
        0 <= i <= s.len(),
    ensures
        in_lang(spec_match_state(e, s, i), s.subrange(i, s.len() as int)) == in_lang(e, s),
    decreases i,
{
    if i == 0 {
        assert(s.subrange(0, s.len() as int) =~= s);
    } else {
        lemma_match_state_lang(e, s, i - 1);
        let q = spec_match_state(e, s, i - 1);
        let d = spec_derivative(q, s[i - 1]);
        lemma_ste_lang(d);
        lemma_derivative_lang(q, s[i - 1], s.subrange(i, s.len() as int));
        assert(seq![s[i - 1]] + s.subrange(i, s.len() as int) =~= s.subrange(
            i - 1,
            s.len() as int,
        ));
    }
}

/// Soundness of the matcher for the language: whenever `is_match` answers
/// true, the input really is in the language of the tree.
pub proof fn lemma_is_match_sound(e: Expr, s: Seq<char>)
    ensures
        spec_is_match(e, s) ==> in_lang(e, s),
{
    if spec_is_match(e, s) {
        let q = spec_match_state(e, s, s.len() as int);
        lemma_match_state_lang(e, s, s.len() as int);
        assert(s.subrange(s.len() as int, s.len() as int) =~= Seq::<char>::empty());
        lemma_contains_epsilon_sound(q);
        lemma_nullable_empty(q);
    }
}

/// Equivalence of the matcher with the language, wherever the final
/// nullability check is decided: on such inputs `is_match` answers true
/// exactly when the input is in the language of the tree. The one gap is a
/// final state whose nullability reduction stalls below `Epsilon`.
pub proof fn lemma_is_match_complete(e: Expr, s: Seq<char>)
    requires
        nullability_decided(spec_match_state(e, s, s.len() as int)),
    ensures
        spec_is_match(e, s) == in_lang(e, s),
{
    let q = spec_match_state(e, s, s.len() as int);
    lemma_is_match_sound(e, s);
    lemma_contains_epsilon_complete(q);
    lemma_match_state_lang(e, s, s.len() as int);
    assert(s.subrange(s.len() as int, s.len() as int) =~= Seq::<char>::empty());
    lemma_nullable_empty(q);
}

} // verus!
