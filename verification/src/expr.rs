//! The expression tree and its algebra: nullability reduction, algebraic
//! simplification, and the Brzozowski derivative.

use vstd::prelude::*;

use crate::postfix::ParseError;

verus! {

/// A tree representation of a regular expression.
#[derive(Debug, PartialEq, Eq, Hash)]
pub enum Expr {
    /// A leaf node that is a term of the alphabet: the language `{c}`.
    Term(char),
    /// The concatenation of two expressions (written `<expr>·<expr>`).
    Concat(Box<Expr>, Box<Expr>),
    /// The Kleene star of an expression (written `<expr>*`).
    Kleene(Box<Expr>),
    /// The union of two expressions (written `<expr>|<expr>`).
    Union(Box<Expr>, Box<Expr>),
    /// The language holding only the string of length zero.
    Epsilon,
    /// The language holding no strings at all.
    Empty,
}

/// The number of nodes in the tree.
pub open spec fn spec_size(e: Expr) -> nat
    decreases e,
{
    match e {
        Expr::Term(_) => 1,
        Expr::Concat(l, r) => 1 + spec_size(*l) + spec_size(*r),
        Expr::Kleene(b) => 1 + spec_size(*b),
        Expr::Union(l, r) => 1 + spec_size(*l) + spec_size(*r),
        Expr::Epsilon => 1,
        Expr::Empty => 1,
    }
}

/// Whether the language of the expression contains the empty string.
pub open spec fn spec_nullable(e: Expr) -> bool
    decreases e,
{
    match e {
        Expr::Term(_) => false,
        Expr::Concat(l, r) => spec_nullable(*l) && spec_nullable(*r),
        Expr::Kleene(_) => true,
        Expr::Union(l, r) => spec_nullable(*l) || spec_nullable(*r),
        Expr::Epsilon => true,
        Expr::Empty => false,
    }
}

/// The nullability reduction: a tree over `Epsilon`, `Empty`, `Concat` and
/// `Union` that stands for `Epsilon` exactly when `e` is nullable.
pub open spec fn spec_nulled(e: Expr) -> Expr
    decreases e,
{
    match e {
        Expr::Term(_) => Expr::Empty,
        Expr::Concat(l, r) => Expr::Concat(Box::new(spec_nulled(*l)), Box::new(spec_nulled(*r))),
        Expr::Kleene(_) => Expr::Epsilon,
        Expr::Union(l, r) => Expr::Union(Box::new(spec_nulled(*l)), Box::new(spec_nulled(*r))),
        Expr::Epsilon => Expr::Epsilon,
        Expr::Empty => Expr::Empty,
    }
}

/// One pass of local algebraic rewriting: operations with `Empty` collapse,
/// `Epsilon` is dropped from concatenations, and nested or trivial stars
/// are flattened.
pub open spec fn spec_simplify(e: Expr) -> Expr
    decreases e,
{
    match e {
        Expr::Concat(l, r) => {
            if *l == Expr::Empty {
                Expr::Empty
            } else if *r == Expr::Empty {
                Expr::Empty
            } else if *l == Expr::Epsilon {
                spec_simplify(*r)
            } else if *r == Expr::Epsilon {
                spec_simplify(*l)
            } else {
                Expr::Concat(Box::new(spec_simplify(*l)), Box::new(spec_simplify(*r)))
            }
        }
        Expr::Union(l, r) => {
            if *l == Expr::Empty {
                spec_simplify(*r)
            } else if *r == Expr::Empty {
                spec_simplify(*l)
            } else {
                Expr::Union(Box::new(spec_simplify(*l)), Box::new(spec_simplify(*r)))
            }
        }
        Expr::Kleene(b) => match *b {
            Expr::Kleene(inner) => Expr::Kleene(Box::new(spec_simplify(*inner))),
            Expr::Empty => Expr::Epsilon,
            Expr::Epsilon => Expr::Epsilon,
            _ => Expr::Kleene(Box::new(spec_simplify(*b))),
        },
        _ => e,
    }
}

/// One rewriting pass never grows the tree, and a pass that changes the tree
/// strictly shrinks it; this bounds the fixpoint iteration of
/// `spec_simplify_to_end`.
pub proof fn lemma_simplify_size(e: Expr)
    ensures
        spec_size(spec_simplify(e)) <= spec_size(e),
        spec_simplify(e) != e ==> spec_size(spec_simplify(e)) < spec_size(e),
    decreases e,
{
    match e {
        Expr::Concat(l, r) => {
            lemma_simplify_size(*l);
            lemma_simplify_size(*r);
        }
        Expr::Union(l, r) => {
            lemma_simplify_size(*l);
            lemma_simplify_size(*r);
        }
        Expr::Kleene(b) => {
            lemma_simplify_size(*b);
            match *b {
                Expr::Kleene(inner) => lemma_simplify_size(*inner),
                _ => {}
            }
        }
        _ => {}
    }
}

/// The fixpoint of `spec_simplify`: rewriting passes applied until the tree
/// no longer changes.
pub open spec fn spec_simplify_to_end(e: Expr) -> Expr
    decreases spec_size(e),
        via spec_simplify_to_end_decreases
{
    if spec_simplify(e) == e {
        e
    } else {
        spec_simplify_to_end(spec_simplify(e))
    }
}

#[via_fn]
proof fn spec_simplify_to_end_decreases(e: Expr) {
    lemma_simplify_size(e);
}

/// The Brzozowski derivative of the expression with respect to `c`,
/// unsimplified.
pub open spec fn spec_derivative(e: Expr, c: char) -> Expr
    decreases e,
{
    match e {
        Expr::Term(t) => if t == c {
            Expr::Epsilon
        } else {
            Expr::Empty
        },
        Expr::Concat(l, r) => Expr::Union(
            Box::new(Expr::Concat(Box::new(spec_derivative(*l, c)), Box::new(*r))),
            Box::new(Expr::Concat(Box::new(spec_nulled(*l)), Box::new(spec_derivative(*r, c)))),
        ),
        Expr::Kleene(b) => Expr::Concat(
            Box::new(spec_derivative(*b, c)),
            Box::new(Expr::Kleene(Box::new(*b))),
        ),
        Expr::Union(l, r) => Expr::Union(
            Box::new(spec_derivative(*l, c)),
            Box::new(spec_derivative(*r, c)),
        ),
        Expr::Epsilon => Expr::Empty,
        Expr::Empty => Expr::Empty,
    }
}

/// One step of tree building: what the token at position `i` of the postfix
/// sequence does to the operand stack, and what is left at the end.
pub open spec fn spec_build(s: Seq<char>, i: int, stack: Seq<Expr>) -> Result<Expr, ParseError>
    decreases s.len() - i,
{
    if i < 0 || i >= s.len() {
        if stack.len() == 1 {
            Ok(stack[0])
        } else {
            Err(ParseError::MalformedExpression)
        }
    } else {
        let c = s[i];
        if c == '|' {
            if stack.len() < 2 {
                Err(ParseError::InsufficientOperands)
            } else {
                spec_build(
                    s,
                    i + 1,
                    stack.drop_last().drop_last().push(
                        Expr::Union(
                            Box::new(stack[stack.len() - 2]),
                            Box::new(stack[stack.len() - 1]),
                        ),
                    ),
                )
            }
        } else if c == '·' {
            if stack.len() < 2 {
                Err(ParseError::InsufficientOperands)
            } else {
                spec_build(
                    s,
                    i + 1,
                    stack.drop_last().drop_last().push(
                        Expr::Concat(
                            Box::new(stack[stack.len() - 2]),
                            Box::new(stack[stack.len() - 1]),
                        ),
                    ),
                )
            }
        } else if c == '*' {
            if stack.len() < 1 {
                Err(ParseError::InsufficientOperands)
            } else {
                spec_build(s, i + 1, stack.drop_last().push(Expr::Kleene(Box::new(stack.last()))))
            }
        } else if c == '∅' {
            spec_build(s, i + 1, stack.push(Expr::Empty))
        } else if c == 'ε' {
            spec_build(s, i + 1, stack.push(Expr::Epsilon))
        } else {
            spec_build(s, i + 1, stack.push(Expr::Term(c)))
        }
    }
}

/// What `Expr::parse_postfix` returns on a postfix token sequence.
pub open spec fn spec_parse_postfix(s: Seq<char>) -> Result<Expr, ParseError> {
    spec_build(s, 0, Seq::<Expr>::empty())
}

/// The canonical textual rendering of the tree: no added whitespace or
/// parentheses, operators written between or after their operands.
pub open spec fn spec_render(e: Expr) -> Seq<char>
    decreases e,
{
    match e {
        Expr::Term(c) => seq![c],
        Expr::Concat(l, r) => spec_render(*l) + seq!['·'] + spec_render(*r),
        Expr::Kleene(b) => spec_render(*b) + seq!['*'],
        Expr::Union(l, r) => spec_render(*l) + seq!['|'] + spec_render(*r),
        Expr::Epsilon => seq!['ε'],
        Expr::Empty => seq!['∅'],
    }
}

/// Whether the language of the tree contains the empty string, as the
/// algebra decides it: the nullability reduction, fully simplified, compared
/// with `Epsilon`.
pub open spec fn spec_contains_epsilon(e: Expr) -> bool {
    spec_simplify_to_end(spec_nulled(e)) == Expr::Epsilon
}

/// The expression the matcher holds after consuming the first `i` characters
/// of `s`: each character applies the derivative and then full
/// simplification.
pub open spec fn spec_match_state(e: Expr, s: Seq<char>, i: int) -> Expr
    decreases i,
{
    if i <= 0 {
        e
    } else {
        spec_simplify_to_end(spec_derivative(spec_match_state(e, s, i - 1), s[i - 1]))
    }
}

/// What `Expr::is_match` returns: the nullability check on the state after
/// the whole input has been consumed.
pub open spec fn spec_is_match(e: Expr, s: Seq<char>) -> bool {
    spec_contains_epsilon(spec_match_state(e, s, s.len() as int))
}

/// Relies on String::push: appends the character to the end of the string.
#[verifier::external_body]
fn string_push(s: &mut String, c: char)
    ensures
        final(s)@ == old(s)@.push(c),
{
    s.push(c)
}

impl Expr {
    /// A deep copy of the tree.
    pub fn duplicate(&self) -> (r: Expr)
        ensures
            r == *self,
        decreases *self,
    {
        match self {
            Expr::Term(c) => Expr::Term(*c),
            Expr::Concat(l, r2) => Expr::Concat(Box::new(l.duplicate()), Box::new(r2.duplicate())),
            Expr::Kleene(b) => Expr::Kleene(Box::new(b.duplicate())),
            Expr::Union(l, r2) => Expr::Union(Box::new(l.duplicate()), Box::new(r2.duplicate())),
            Expr::Epsilon => Expr::Epsilon,
            Expr::Empty => Expr::Empty,
        }
    }

    /// Structural equality of two trees.
    pub fn tree_eq(&self, other: &Expr) -> (r: bool)
        ensures
            r == (*self == *other),
        decreases *self,
    {
        match (self, other) {
            (Expr::Term(a), Expr::Term(b)) => *a == *b,
            (Expr::Concat(l1, r1), Expr::Concat(l2, r2)) => l1.tree_eq(l2) && r1.tree_eq(r2),
            (Expr::Kleene(b1), Expr::Kleene(b2)) => b1.tree_eq(b2),
            (Expr::Union(l1, r1), Expr::Union(l2, r2)) => l1.tree_eq(l2) && r1.tree_eq(r2),
            (Expr::Epsilon, Expr::Epsilon) => true,
            (Expr::Empty, Expr::Empty) => true,
            _ => false,
        }
    }

    /// The nullability reduction of this tree.
    pub fn nulled(&self) -> (r: Expr)
        ensures
            r == spec_nulled(*self),
        decreases *self,
    {
        match self {
            Expr::Term(_) => Expr::Empty,
            Expr::Concat(l, r2) => Expr::Concat(Box::new(l.nulled()), Box::new(r2.nulled())),
            Expr::Kleene(_) => Expr::Epsilon,
            Expr::Union(l, r2) => Expr::Union(Box::new(l.nulled()), Box::new(r2.nulled())),
            Expr::Epsilon => Expr::Epsilon,
            Expr::Empty => Expr::Empty,
        }
    }

    /// One pass of algebraic simplification.
    pub fn simplify(&self) -> (r: Expr)
        ensures
            r == spec_simplify(*self),
        decreases *self,
    {
        match self {
            Expr::Concat(l, r2) => {
                if l.tree_eq(&Expr::Empty) {
                    Expr::Empty
                } else if r2.tree_eq(&Expr::Empty) {
                    Expr::Empty
                } else if l.tree_eq(&Expr::Epsilon) {
                    r2.simplify()
                } else if r2.tree_eq(&Expr::Epsilon) {
                    l.simplify()
                } else {
                    Expr::Concat(Box::new(l.simplify()), Box::new(r2.simplify()))
                }
            }
            Expr::Union(l, r2) => {
                if l.tree_eq(&Expr::Empty) {
                    r2.simplify()
                } else if r2.tree_eq(&Expr::Empty) {
                    l.simplify()
                } else {
                    Expr::Union(Box::new(l.simplify()), Box::new(r2.simplify()))
                }
            }
            Expr::Kleene(b) => match &**b {
                Expr::Kleene(inner) => Expr::Kleene(Box::new(inner.simplify())),
                Expr::Empty => Expr::Epsilon,
                Expr::Epsilon => Expr::Epsilon,
                _ => Expr::Kleene(Box::new(b.simplify())),
            },
            _ => self.duplicate(),
        }
    }

    /// Simplification passes repeated until the tree no longer changes.
    pub fn simplify_to_end(&self) -> (r: Expr)
        ensures
            r == spec_simplify_to_end(*self),
    {
        let mut curr = self.duplicate();
        loop
            invariant
                spec_simplify_to_end(curr) == spec_simplify_to_end(*self),
            ensures
                curr == spec_simplify_to_end(*self),
            decreases spec_size(curr),
        {
            let next = curr.simplify();
            proof {
                lemma_simplify_size(curr);
            }
            if curr.tree_eq(&next) {
                break;
            }
            curr = next;
        }
        curr
    }

    /// Given a postfix token sequence, build an expression tree out of it by
    /// an operand stack: an operand pushes a leaf, an operator pops what it
    /// needs and pushes the combined tree. An operator short of operands is
    /// reported as `InsufficientOperands`; a final stack holding anything but
    /// exactly one tree as `MalformedExpression`.
    pub fn parse_postfix(s: &[char]) -> (r: Result<Expr, ParseError>)
        ensures
            r == spec_parse_postfix(s@),
    {
        let n = s.len();
        let mut stack: Vec<Expr> = Vec::new();
        let mut i: usize = 0;
        while i < n
            invariant
                n == s@.len(),
                i <= n,
                spec_build(s@, i as int, stack@) == spec_parse_postfix(s@),
            decreases n - i,
        {
            let c = s[i];
            let ghost st0 = stack@;
            if c == '|' {
                if stack.len() < 2 {
                    return Err(ParseError::InsufficientOperands);
                }
                let right = stack.pop().unwrap();
                let left = stack.pop().unwrap();
                stack.push(Expr::Union(Box::new(left), Box::new(right)));
                proof {
                    assert(stack@ =~= st0.drop_last().drop_last().push(
                        Expr::Union(Box::new(st0[st0.len() - 2]), Box::new(st0[st0.len() - 1])),
                    ));
                }
            } else if c == '·' {
                if stack.len() < 2 {
                    return Err(ParseError::InsufficientOperands);
                }
                let right = stack.pop().unwrap();
                let left = stack.pop().unwrap();
                stack.push(Expr::Concat(Box::new(left), Box::new(right)));
                proof {
                    assert(stack@ =~= st0.drop_last().drop_last().push(
                        Expr::Concat(Box::new(st0[st0.len() - 2]), Box::new(st0[st0.len() - 1])),
                    ));
                }
            } else if c == '*' {
                if stack.len() < 1 {
                    return Err(ParseError::InsufficientOperands);
                }
                let base = stack.pop().unwrap();
                stack.push(Expr::Kleene(Box::new(base)));
                proof {
                    assert(stack@ =~= st0.drop_last().push(Expr::Kleene(Box::new(st0.last()))));
                }
            } else if c == '∅' {
                stack.push(Expr::Empty);
            } else if c == 'ε' {
                stack.push(Expr::Epsilon);
            } else {
                stack.push(Expr::Term(c));
            }
            i = i + 1;
        }
        if stack.len() != 1 {
            return Err(ParseError::MalformedExpression);
        }
        let r = stack.pop().unwrap();
        Ok(r)
    }

    /// The canonical textual rendering of this tree.
    pub fn render(&self) -> (r: String)
        ensures
            r@ == spec_render(*self),
        decreases *self,
    {
        match self {
            Expr::Term(c) => {
                let mut s = String::new();
                string_push(&mut s, *c);
                proof {
                    assert(s@ =~= spec_render(*self));
                }
                s
            }
            Expr::Concat(l, r2) => {
                let mut s = l.render();
                string_push(&mut s, '·');
                let right = r2.render();
                s.append(right.as_str());
                proof {
                    assert(s@ =~= spec_render(*self));
                }
                s
            }
            Expr::Kleene(b) => {
                let mut s = b.render();
                string_push(&mut s, '*');
                proof {
                    assert(s@ =~= spec_render(*self));
                }
                s
            }
            Expr::Union(l, r2) => {
                let mut s = l.render();
                string_push(&mut s, '|');
                let right = r2.render();
                s.append(right.as_str());
                proof {
                    assert(s@ =~= spec_render(*self));
                }
                s
            }
            Expr::Epsilon => {
                let mut s = String::new();
                string_push(&mut s, 'ε');
                proof {
                    assert(s@ =~= spec_render(*self));
                }
                s
            }
            Expr::Empty => {
                let mut s = String::new();
                string_push(&mut s, '∅');
                proof {
                    assert(s@ =~= spec_render(*self));
                }
                s
            }
        }
    }

    /// Whether the language of this tree contains the empty string, decided
    /// by fully simplifying the nullability reduction.
    pub fn contains_epsilon(&self) -> (r: bool)
        ensures
            r == spec_contains_epsilon(*self),
            r ==> spec_nullable(*self),
    {
        proof {
            crate::lang::lemma_contains_epsilon_sound(*self);
        }
        let reduced = self.nulled().simplify_to_end();
        reduced.tree_eq(&Expr::Epsilon)
    }

    /// Whether this tree accepts the input: fold the derivative, followed by
    /// full simplification, over the characters, then check nullability.
    /// Total over any finite string; it cannot fail.
    pub fn is_match(&self, pat: &str) -> (r: bool)
        ensures
            r == spec_is_match(*self, pat@),
            r ==> crate::lang::in_lang(*self, pat@),
    {
        proof {
            crate::lang::lemma_is_match_sound(*self, pat@);
        }
        let n = pat.unicode_len();
        let mut q = self.duplicate();
        let mut i: usize = 0;
        while i < n
            invariant
                n == pat@.len(),
                i <= n,
                q == spec_match_state(*self, pat@, i as int),
            decreases n - i,
        {
            let c = pat.get_char(i);
            let d = q.derivative(c);
            q = d.simplify_to_end();
            i = i + 1;
        }
        q.contains_epsilon()
    }

    /// The Brzozowski derivative of this tree with respect to `c`,
    /// unsimplified.
    pub fn derivative(&self, c: char) -> (r: Expr)
        ensures
            r == spec_derivative(*self, c),
        decreases *self,
    {
        match self {
            Expr::Term(t) => {
                if *t == c {
                    Expr::Epsilon
                } else {
                    Expr::Empty
                }
            }
            Expr::Concat(l, r2) => Expr::Union(
                Box::new(Expr::Concat(Box::new(l.derivative(c)), Box::new(r2.duplicate()))),
                Box::new(Expr::Concat(Box::new(l.nulled()), Box::new(r2.derivative(c)))),
            ),
            Expr::Kleene(b) => Expr::Concat(
                Box::new(b.derivative(c)),
                Box::new(Expr::Kleene(Box::new(b.duplicate()))),
            ),
            Expr::Union(l, r2) => Expr::Union(
                Box::new(l.derivative(c)),
                Box::new(r2.derivative(c)),
            ),
            Expr::Epsilon => Expr::Empty,
            Expr::Empty => Expr::Empty,
        }
    }
}

impl Clone for Expr {
    /// A deep copy of the tree.
    fn clone(&self) -> (r: Self)
        ensures
            r == *self,
    {
        self.duplicate()
    }
}

} // verus!
