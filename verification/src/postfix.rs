//! Infix-to-postfix conversion of an augmented pattern by the shunting-yard
//! algorithm, with a fixed operator-precedence table.

use vstd::prelude::*;

verus! {

/// A structured parse error: malformed patterns are rejected with one of
/// these kinds, never with a crash.
#[derive(Debug, Clone, Copy, PartialEq, Eq, Structural)]
pub enum ParseError {
    /// A closing parenthesis without a matching opening one, or the other
    /// way round.
    UnbalancedParentheses,
    /// An operator in postfix form found fewer operands on the stack than it
    /// needs.
    InsufficientOperands,
    /// After building, the operand stack did not hold exactly one tree.
    MalformedExpression,
}

/// The result of `char::is_alphanumeric` on a character; it depends on the
/// character alone. A character for which it holds is an operand of the
/// pattern syntax; every other character is treated as an operator.
pub uninterp spec fn alnum(c: char) -> bool;

/// Relies on char::is_alphanumeric: true exactly when the character is a
/// Unicode letter or number. ASCII letters and digits are letters and
/// numbers; '(' ')' '|' '*' are ASCII punctuation, the explicit
/// concatenation mark '·' is punctuation and the empty-language mark '∅' a
/// mathematical symbol, so none of those six is a letter or a number; the
/// empty-string mark 'ε' is a Greek letter.
pub assume_specification[ char::is_alphanumeric ](c: char) -> (r: bool)
    ensures
        r == alnum(c),
        (('a' <= c && c <= 'z') || ('A' <= c && c <= 'Z') || ('0' <= c && c <= '9')) ==> r,
        (c == '(' || c == ')' || c == '|' || c == '*' || c == '·' || c == '∅') ==> !r,
        c == 'ε' ==> r,
;

/// The fixed operator-precedence table: `(` 0, `|` 1, `·` 2, `*` 3, a higher
/// rank binding tighter. Characters outside the table rank like `*`.
pub open spec fn spec_prec(c: char) -> nat {
    if c == '(' {
        0
    } else if c == '|' {
        1
    } else if c == '·' {
        2
    } else {
        3
    }
}

fn prec_of(c: char) -> (r: usize)
    ensures
        r as nat == spec_prec(c),
{
    if c == '(' {
        0
    } else if c == '|' {
        1
    } else if c == '·' {
        2
    } else {
        3
    }
}

/// Pop every operator of precedence at least `p` from the top of the stack:
/// the stack that remains, and the popped operators in pop order.
pub open spec fn pop_ge(stack: Seq<char>, p: nat) -> (Seq<char>, Seq<char>)
    decreases stack.len(),
{
    if stack.len() == 0 || spec_prec(stack.last()) < p {
        (stack, Seq::<char>::empty())
    } else {
        let q = pop_ge(stack.drop_last(), p);
        (q.0, seq![stack.last()] + q.1)
    }
}

/// Pop operators until a `(` is found, discarding that `(`: the stack that
/// remains, and the popped operators in pop order; `None` when no `(` is on
/// the stack.
pub open spec fn pop_to_lparen(stack: Seq<char>) -> Option<(Seq<char>, Seq<char>)>
    decreases stack.len(),
{
    if stack.len() == 0 {
        None
    } else if stack.last() == '(' {
        Some((stack.drop_last(), Seq::<char>::empty()))
    } else {
        match pop_to_lparen(stack.drop_last()) {
            None => None,
            Some(q) => Some((q.0, seq![stack.last()] + q.1)),
        }
    }
}

/// Pop the whole stack at the end of the scan, in pop order; `None` when an
/// unmatched `(` is still on the stack.
pub open spec fn pop_rest(stack: Seq<char>) -> Option<Seq<char>>
    decreases stack.len(),
{
    if stack.len() == 0 {
        Some(Seq::<char>::empty())
    } else if stack.last() == '(' {
        None
    } else {
        match pop_rest(stack.drop_last()) {
            None => None,
            Some(o) => Some(seq![stack.last()] + o),
        }
    }
}

/// The shunting-yard scan from position `i` on, with the operator stack and
/// the output built so far.
pub open spec fn spec_shunt(inp: Seq<char>, i: int, stack: Seq<char>, out: Seq<char>) -> Result<
    Seq<char>,
    ParseError,
>
    decreases inp.len() - i,
{
    if i < 0 || i >= inp.len() {
        match pop_rest(stack) {
            None => Err(ParseError::UnbalancedParentheses),
            Some(o) => Ok(out + o),
        }
    } else {
        let c = inp[i];
        if alnum(c) {
            spec_shunt(inp, i + 1, stack, out.push(c))
        } else if c == '(' {
            spec_shunt(inp, i + 1, stack.push(c), out)
        } else if c == ')' {
            match pop_to_lparen(stack) {
                None => Err(ParseError::UnbalancedParentheses),
                Some(q) => spec_shunt(inp, i + 1, q.0, out + q.1),
            }
        } else {
            let q = pop_ge(stack, spec_prec(c));
            spec_shunt(inp, i + 1, q.0.push(c), out + q.1)
        }
    }
}

/// What `infix_to_postfix` returns: the postfix form of the whole input, or
/// the unbalanced-parenthesis error.
pub open spec fn spec_postfix(inp: Seq<char>) -> Result<Seq<char>, ParseError> {
    spec_shunt(inp, 0, Seq::<char>::empty(), Seq::<char>::empty())
}

/// Convert an augmented infix token sequence into postfix order using the
/// shunting-yard algorithm and the precedence table above. A `)` with no
/// matching `(` on the stack, or a `(` still on the stack after the scan,
/// is reported as `UnbalancedParentheses`.
pub fn infix_to_postfix(expression: &[char]) -> (r: Result<Vec<char>, ParseError>)
    ensures
        match r {
            Ok(v) => spec_postfix(expression@) == Ok::<Seq<char>, ParseError>(v@),
            Err(e) => spec_postfix(expression@) == Err::<Seq<char>, ParseError>(e),
        },
{
    let n = expression.len();
    let mut stack: Vec<char> = Vec::new();
    let mut output: Vec<char> = Vec::new();
    let mut i: usize = 0;
    while i < n
        invariant
            n == expression@.len(),
            i <= n,
            spec_shunt(expression@, i as int, stack@, output@) == spec_postfix(expression@),
        decreases n - i,
    {
        let c = expression[i];
        let ghost stack0 = stack@;
        let ghost out0 = output@;
        if c.is_alphanumeric() {
            output.push(c);
        } else if c == '(' {
            stack.push(c);
        } else if c == ')' {
            loop
                invariant
                    pop_to_lparen(stack0) is None <==> pop_to_lparen(stack@) is None,
                    pop_to_lparen(stack0) is Some ==> {
                        let q0 = pop_to_lparen(stack0)->Some_0;
                        let q = pop_to_lparen(stack@)->Some_0;
                        q.0 == q0.0 && out0 + q0.1 == output@ + q.1
                    },
                ensures
                    pop_to_lparen(stack0) is None ==> stack@.len() == 0,
                    pop_to_lparen(stack0) is Some ==> stack@.len() > 0 && stack@.last() == '('
                        && (pop_to_lparen(stack0)->Some_0).0 == stack@.drop_last() && out0
                        + (pop_to_lparen(stack0)->Some_0).1 == output@,
                decreases stack@.len(),
            {
                if stack.len() == 0 {
                    break;
                }
                let top = stack[stack.len() - 1];
                if top == '(' {
                    proof {
                        assert(pop_to_lparen(stack@) == Some(
                            (stack@.drop_last(), Seq::<char>::empty()),
                        ));
                        assert(out0 + (pop_to_lparen(stack0)->Some_0).1 =~= output@);
                    }
                    break;
                }
                let t = stack.pop().unwrap();
                output.push(t);
                proof {
                    let q = pop_to_lparen(stack@);
                    if pop_to_lparen(stack0) is Some {
                        let q0 = pop_to_lparen(stack0)->Some_0;
                        assert(out0 + q0.1 =~= output@ + q->Some_0.1);
                    }
                }
            }
            if stack.len() == 0 {
                return Err(ParseError::UnbalancedParentheses);
            }
            let _discarded = stack.pop();
        } else {
            let p = prec_of(c);
            loop
                invariant
                    pop_ge(stack0, p as nat).0 == pop_ge(stack@, p as nat).0,
                    out0 + pop_ge(stack0, p as nat).1 == output@ + pop_ge(stack@, p as nat).1,
                ensures
                    pop_ge(stack@, p as nat) == (stack@, Seq::<char>::empty()),
                    pop_ge(stack0, p as nat).0 == stack@,
                    out0 + pop_ge(stack0, p as nat).1 == output@,
                decreases stack@.len(),
            {
                if stack.len() == 0 {
                    proof {
                        assert(out0 + pop_ge(stack0, p as nat).1 =~= output@);
                    }
                    break;
                }
                let top = stack[stack.len() - 1];
                if prec_of(top) < p {
                    proof {
                        assert(out0 + pop_ge(stack0, p as nat).1 =~= output@);
                    }
                    break;
                }
                let t = stack.pop().unwrap();
                output.push(t);
                proof {
                    assert(out0 + pop_ge(stack0, p as nat).1 =~= output@ + pop_ge(
                        stack@,
                        p as nat,
                    ).1);
                }
            }
            stack.push(c);
        }
        i = i + 1;
    }
    let ghost stack0 = stack@;
    let ghost out0 = output@;
    loop
        invariant
            n == expression@.len(),
            spec_shunt(expression@, n as int, stack0, out0) == spec_postfix(expression@),
            pop_rest(stack0) is None <==> pop_rest(stack@) is None,
            pop_rest(stack0) is Some ==> out0 + pop_rest(stack0)->Some_0 == output@ + pop_rest(
                stack@,
            )->Some_0,
        ensures
            pop_rest(stack0) is Some,
            out0 + pop_rest(stack0)->Some_0 == output@,
        decreases stack@.len(),
    {
        if stack.len() == 0 {
            proof {
                assert(pop_rest(stack@) == Some(Seq::<char>::empty()));
                assert(out0 + pop_rest(stack0)->Some_0 =~= output@);
            }
            break;
        }
        let ghost before = stack@;
        let t = stack.pop().unwrap();
        if t == '(' {
            proof {
                assert(pop_rest(before) is None);
                assert(pop_rest(stack0) is None);
                assert(spec_shunt(expression@, n as int, stack0, out0) == Err::<
                    Seq<char>,
                    ParseError,
                >(ParseError::UnbalancedParentheses));
            }
            return Err(ParseError::UnbalancedParentheses);
        }
        output.push(t);
        proof {
            if pop_rest(stack0) is Some {
                assert(out0 + pop_rest(stack0)->Some_0 =~= output@ + pop_rest(stack@)->Some_0);
            }
        }
    }
    Ok(output)
}

} // verus!
