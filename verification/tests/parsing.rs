use brzozowski::{augment_imperative, infix_to_postfix, parse, Expr, ParseError};

fn postfix_of(src: &str) -> Result<String, ParseError> {
    let chars: Vec<char> = src.chars().collect();
    let augmented = augment_imperative(&chars);
    infix_to_postfix(&augmented).map(|v| v.into_iter().collect())
}

#[test]
fn augmented_infix_to_postfix_empty_string() {
    assert!(parse("").is_ok());
    assert_eq!(postfix_of(""), Ok("ε".to_string()));
}

#[test]
fn augmented_infix_to_postfix_simple() {
    assert!(parse("(c|b)at").is_ok());
    assert_eq!(postfix_of("(c|b)at"), Ok("cb|a·t·".to_string()));
}

#[test]
fn augmented_infix_to_postfix_complex() {
    assert!(parse("(c|b)(a|t)**|((ab))").is_ok());
    assert_eq!(postfix_of("(c|b)(a|t)**|((ab))"), Ok("cb|at|**·ab·|".to_string()));
}

#[test]
fn expr_parse() {
    let s: Vec<char> = "cb|a·t·".chars().collect();
    let expr = Expr::parse_postfix(&s).unwrap();
    assert_eq!(expr.render(), "c|b·a·t");
    assert_eq!(
        expr,
        Expr::Concat(
            Box::new(Expr::Concat(
                Box::new(Expr::Union(
                    Box::new(Expr::Term('c')),
                    Box::new(Expr::Term('b'))
                )),
                Box::new(Expr::Term('a')),
            )),
            Box::new(Expr::Term('t'))
        )
    );
    assert!(!expr.contains_epsilon());
}

#[test]
fn parse_builds_expected_tree() {
    let expr = parse("ba*(n|a)*").unwrap();
    let expected = Expr::Concat(
        Box::new(Expr::Concat(
            Box::new(Expr::Term('b')),
            Box::new(Expr::Kleene(Box::new(Expr::Term('a')))),
        )),
        Box::new(Expr::Kleene(Box::new(Expr::Union(
            Box::new(Expr::Term('n')),
            Box::new(Expr::Term('a')),
        )))),
    );
    assert_eq!(expr, expected);
}

#[test]
fn unmatched_open_paren_is_unbalanced() {
    assert_eq!(parse("(a"), Err(ParseError::UnbalancedParentheses));
}

#[test]
fn unmatched_close_paren_is_unbalanced() {
    assert_eq!(parse("a)"), Err(ParseError::UnbalancedParentheses));
    assert_eq!(parse(")"), Err(ParseError::UnbalancedParentheses));
}

#[test]
fn star_without_operand_is_insufficient() {
    let s: Vec<char> = "*".chars().collect();
    assert_eq!(Expr::parse_postfix(&s), Err(ParseError::InsufficientOperands));
    assert_eq!(parse("*"), Err(ParseError::InsufficientOperands));
}

#[test]
fn union_without_operands_is_insufficient() {
    let s: Vec<char> = "a|".chars().collect();
    assert_eq!(Expr::parse_postfix(&s), Err(ParseError::InsufficientOperands));
}

#[test]
fn leftover_operands_are_malformed() {
    let s: Vec<char> = "ab".chars().collect();
    assert_eq!(Expr::parse_postfix(&s), Err(ParseError::MalformedExpression));
    let empty: Vec<char> = Vec::new();
    assert_eq!(Expr::parse_postfix(&empty), Err(ParseError::MalformedExpression));
}

#[test]
fn close_then_open_is_unbalanced() {
    assert_eq!(parse(")("), Err(ParseError::UnbalancedParentheses));
}

#[test]
fn empty_groups_are_malformed() {
    assert_eq!(parse("()"), Err(ParseError::MalformedExpression));
    assert_eq!(parse("(())"), Err(ParseError::MalformedExpression));
}

#[test]
fn parse_postfix_markers() {
    let s: Vec<char> = "ε∅·".chars().collect();
    let expr = Expr::parse_postfix(&s).unwrap();
    assert_eq!(
        expr,
        Expr::Concat(Box::new(Expr::Epsilon), Box::new(Expr::Empty))
    );
}
