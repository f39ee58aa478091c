use brzozowski::{parse, Expr};

#[test]
fn expr_btree() {
    let tree = Expr::Union(
        Box::new(Expr::Concat(
            Box::new(Expr::Union(
                Box::new(Expr::Term('c')),
                Box::new(Expr::Term('b')),
            )),
            Box::new(Expr::Kleene(Box::new(Expr::Union(
                Box::new(Expr::Term('a')),
                Box::new(Expr::Term('t')),
            )))),
        )),
        Box::new(Expr::Concat(
            Box::new(Expr::Term('c')),
            Box::new(Expr::Term('b')),
        )),
    );
    let expected = "c|b·a|t*|c·b";
    assert_eq!(tree.render(), expected);
}

#[test]
fn render_leaves() {
    assert_eq!(Expr::Epsilon.render(), "ε");
    assert_eq!(Expr::Empty.render(), "∅");
    assert_eq!(Expr::Term('x').render(), "x");
}

#[test]
fn nulled_union_of_terms() {
    let expr = parse("(c|b)").unwrap();
    assert_eq!(
        expr.nulled(),
        Expr::Union(Box::new(Expr::Empty), Box::new(Expr::Empty))
    );
}

#[test]
fn simplify_collapses_epsilon_and_empty() {
    let expr = parse("((c|b)ε)*").unwrap();
    assert_eq!(
        expr.simplify(),
        Expr::Kleene(Box::new(Expr::Union(
            Box::new(Expr::Term('c')),
            Box::new(Expr::Term('b'))
        )))
    );
}

#[test]
fn simplify_to_end_reaches_fixpoint() {
    let expr = parse("((c|b)ε)*ε").unwrap();
    assert_eq!(
        expr.simplify_to_end(),
        Expr::Kleene(Box::new(Expr::Union(
            Box::new(Expr::Term('c')),
            Box::new(Expr::Term('b'))
        )))
    );
}

#[test]
fn simplify_to_end_is_idempotent() {
    // One pass to the fixpoint, then another, changes nothing more.
    for pattern in ["((c|b)ε)*ε", "(c|b)at", "a*", "", "(a)(b)(c)"] {
        let expr = parse(pattern).unwrap();
        let once = expr.derivative('a').simplify_to_end();
        let twice = once.simplify_to_end();
        assert_eq!(once, twice, "not a fixpoint for {:?}", pattern);
    }
}

#[test]
fn contains_epsilon_union_with_starred_branch() {
    // The starred branch makes the union nullable, and the reduction
    // collapses to the Epsilon leaf.
    let expr = parse("c|ba|t*|cb").unwrap();
    assert!(expr.contains_epsilon());
}

#[test]
fn contains_epsilon_union_without_nullable_branch() {
    let expr = parse("c|ba|t|cb").unwrap();
    assert!(!expr.contains_epsilon());
}

#[test]
fn contains_epsilon_complex_kleene() {
    let expr = parse("(c|ba)*a*").unwrap();
    assert!(expr.contains_epsilon());
}

#[test]
fn contains_epsilon_simple_kleene() {
    let expr = parse("a*").unwrap();
    assert!(expr.contains_epsilon());
}

#[test]
fn contains_epsilon_empty_pattern() {
    let expr = parse("").unwrap();
    assert!(expr.contains_epsilon());
}

#[test]
fn contains_epsilon_single_term() {
    let expr = parse("a").unwrap();
    assert!(!expr.contains_epsilon());
}

#[test]
fn expr_deriv() {
    let s = "(c|b)at";
    let expr = parse(s).unwrap();
    let wrt_c = expr.derivative('c');
    assert_eq!(wrt_c.simplify_to_end().render(), "a·t");
}

#[test]
fn derivative_is_unsimplified() {
    let expr = parse("(c|b)at").unwrap();
    let wrt_c = expr.derivative('c');
    assert_eq!(wrt_c.render(), "ε|∅·a|∅|∅·∅·t|∅|∅·∅·∅");
    let wrt_e = expr.derivative('e');
    assert_eq!(wrt_e.render(), "∅|∅·a|∅|∅·∅·t|∅|∅·∅·∅");
    assert_eq!(wrt_e.simplify_to_end().render(), "∅");
}
