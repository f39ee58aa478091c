use brzozowski::{augment, augment_imperative, Augment};
use rand::distributions::{DistString, Standard};

fn random_string(len: usize) -> String {
    let alpha = Standard;
    let mut rng = rand::thread_rng();
    alpha.sample_string(&mut rng, len)
}

fn compare_iterative_and_imperative(src: &str) {
    let observed_iterative = collect_lazy(src);
    let observed_imperative = collect_eager(src);
    assert_eq!(observed_imperative, observed_iterative);
}

/// Pull the lazy producer until it signals the end of the stream.
fn collect_lazy(src: &str) -> String {
    let mut cursor: Augment = augment(src.chars().collect());
    let mut out = String::new();
    while let Some(c) = cursor.next() {
        out.push(c);
    }
    out
}

fn collect_eager(src: &str) -> String {
    let chars: Vec<char> = src.chars().collect();
    augment_imperative(&chars).into_iter().collect()
}

#[test]
fn augment_empty_string() {
    assert_eq!(collect_lazy(""), "ε");
}

#[test]
fn augment_single_char() {
    assert_eq!(collect_lazy("c"), "c");
}

#[test]
fn augment_simple() {
    assert_eq!(collect_lazy("(c|b)at"), "(c|b)·a·t");
}

#[test]
fn augment_complex() {
    assert_eq!(collect_lazy("(c|b)at(b*a)"), "(c|b)·a·t·(b*·a)");
}

#[test]
fn augment_star_suppresses_marker() {
    assert_eq!(collect_lazy("ba*(n|a)*"), "b·a*·(n|a)*");
}

#[test]
fn augment_marker_between_close_and_open() {
    // A closing parenthesis before the current token does not suppress the
    // marker; only `(` and `|` on the left, or `|` `)` `*` on the right, do.
    assert_eq!(collect_lazy(")("), ")·(");
}

#[test]
fn iterative() {
    // The lazy and the eager producer emit identical output.
    for src in ["", "c", "(c|b)at", "(c|b)at(b*a)", ")(", "(())", "a**", "|||"] {
        assert_eq!(collect_eager(src), collect_lazy(src), "diverged on {:?}", src);
    }
}

#[test]
fn random_regexes() {
    for len in 1..100 {
        for _ in 0..100 {
            compare_iterative_and_imperative(&random_string(len));
        }
    }
}

#[test]
fn lazy_producer_ends_cleanly() {
    let mut cursor: Augment = augment("ab".chars().collect());
    assert_eq!(cursor.next(), Some('a'));
    assert_eq!(cursor.next(), Some('·'));
    assert_eq!(cursor.next(), Some('b'));
    assert_eq!(cursor.next(), None);
    assert_eq!(cursor.next(), None);
}

#[test]
fn lazy_producer_empty_ends_after_epsilon() {
    let mut cursor: Augment = augment(Vec::new());
    assert_eq!(cursor.next(), Some('ε'));
    assert_eq!(cursor.next(), None);
}
