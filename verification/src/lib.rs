//! A regular-expression matcher built on Brzozowski derivatives.
//!
//! A pattern over a minimal operator set (concatenation, union `|`,
//! Kleene star `*`, single-character terms, parentheses) is parsed into an
//! expression tree, and matching folds the derivative transform over the
//! input characters instead of compiling an automaton.
//!
//! The pipeline: raw pattern -> explicit-concatenation augmentation ->
//! infix-to-postfix conversion (shunting yard) -> tree construction ->
//! derivative/simplification/nullability algebra.

mod augmenter;
mod expr;
mod lang;
mod postfix;

pub use lang::in_lang;
pub use lang::nullability_decided;
pub use lang::lemma_nullable_empty;
pub use lang::lemma_nulled_lang;
pub use lang::lemma_derivative_lang;
pub use lang::lemma_simplify_lang;
pub use lang::lemma_ste_lang;
pub use lang::lemma_ste_fixpoint;
pub use lang::lemma_simplify_to_end_idempotent;
pub use lang::lemma_contains_epsilon_sound;
pub use lang::lemma_contains_epsilon_complete;
pub use lang::lemma_match_state_lang;
pub use lang::lemma_is_match_sound;
pub use lang::lemma_is_match_complete;

pub use augmenter::Augment;
pub use augmenter::augment;
pub use augmenter::augment_imperative;
pub use augmenter::spec_augment;
pub use augmenter::aug_upto;
pub use augmenter::needs_dot;

pub use postfix::ParseError;
pub use postfix::infix_to_postfix;
pub use postfix::spec_postfix;
pub use postfix::spec_prec;
pub use postfix::alnum;
pub use expr::Expr;
pub use expr::spec_build;
pub use expr::spec_parse_postfix;
pub use expr::spec_render;
pub use expr::spec_contains_epsilon;
pub use expr::spec_match_state;
pub use expr::spec_is_match;
pub use expr::spec_size;
pub use expr::spec_nullable;
pub use expr::spec_nulled;
pub use expr::spec_simplify;
pub use expr::spec_simplify_to_end;
pub use expr::spec_derivative;
pub use expr::lemma_simplify_size;

use vstd::prelude::*;

verus! {

/// What `parse` returns: the tree built from the augmented, postfix form of
/// the pattern, or the first structured error met along the way.
pub open spec fn spec_parse(pattern: Seq<char>) -> Result<Expr, ParseError> {
    match spec_postfix(spec_augment(pattern)) {
        Err(e) => Err(e),
        Ok(p) => spec_parse_postfix(p),
    }
}

/// Run the full pipeline: augmentation (by the lazy producer), postfix
/// conversion, tree building. Malformed patterns are rejected with a
/// structured error, never with a crash.
pub fn parse(pattern: &str) -> (r: Result<Expr, ParseError>)
    ensures
        r == spec_parse(pattern@),
{
    let n = pattern.unicode_len();
    let mut chars: Vec<char> = Vec::new();
    let mut i: usize = 0;
    while i < n
        invariant
            n == pattern@.len(),
            i <= n,
            chars@ == pattern@.subrange(0, i as int),
        decreases n - i,
    {
        chars.push(pattern.get_char(i));
        i = i + 1;
    }
    proof {
        assert(chars@ =~= pattern@);
    }
    let mut cursor = augment(chars);
    let mut augmented: Vec<char> = Vec::new();
    loop
        invariant
            cursor.wf(),
            cursor.source() == pattern@,
            cursor.emitted() == augmented@.len(),
            cursor.emitted() <= spec_augment(pattern@).len(),
            augmented@ == spec_augment(pattern@).subrange(0, cursor.emitted()),
        ensures
            augmented@ == spec_augment(pattern@),
        decreases spec_augment(pattern@).len() - cursor.emitted(),
    {
        match cursor.next() {
            Some(c) => {
                augmented.push(c);
                proof {
                    assert(augmented@ =~= spec_augment(pattern@).subrange(0, cursor.emitted()));
                }
            }
            None => {
                proof {
                    assert(augmented@ =~= spec_augment(pattern@));
                }
                break;
            }
        }
    }
    match infix_to_postfix(augmented.as_slice()) {
        Err(e) => Err(e),
        Ok(p) => Expr::parse_postfix(p.as_slice()),
    }
}

} // verus!
