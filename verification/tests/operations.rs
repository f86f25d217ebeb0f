//! Built-in functions.
use mork_metta::atom::Atom;
use mork_metta::builtins::arithmetic::alpha_eq;
use mork_metta::builtins::arithmetic::random_int;
use mork_metta::builtins::call_builtin;
use mork_metta::builtins::hashing::hash_words;
use mork_metta::builtins::hashing::HashWord;
use mork_metta::builtins::register_builtins;
use mork_metta::builtins::Answer;
use mork_metta::compile::reify::expr_to_atom;
use mork_metta::func::FnTable;
use mork_metta::parser::parse_forms;
use mork_metta::parser::TopForm;
use mork_metta::space::add_atom;

fn atom(s: &str) -> Atom {
    match parse_forms(s).unwrap().pop().unwrap() {
        TopForm::Definition(e) => expr_to_atom(&e),
        TopForm::Runnable(e) => expr_to_atom(&e),
    }
}

fn call(table: &mut FnTable, name: &str, args: Vec<Atom>) -> Answer {
    let b = table.get(name, args.len() as u8).unwrap();
    call_builtin(b, name, &args, table)
}

fn shown(a: Answer) -> Vec<String> {
    match a {
        Answer::Values(vs) => vs.iter().map(|a| a.to_sexpr_string()).collect(),
        Answer::Fail(m) => vec![format!("error: {}", m)],
        Answer::Report(l, v) => vec![l, v.to_sexpr_string()],
        Answer::Host(_, n, _) => vec![format!("host {}", n)],
        Answer::Loop(_) => vec!["loop".to_string()],
    }
}

fn apply(name: &str, args: &[&str]) -> Vec<String> {
    let mut t = FnTable::new();
    register_builtins(&mut t);
    let list = args.iter().map(|a| atom(a)).collect();
    shown(call(&mut t, name, list))
}

fn fails(name: &str, args: &[&str]) -> bool {
    apply(name, args)[0].starts_with("error: ")
}

#[test]
fn arithmetic_on_integers() {
    assert_eq!(apply("+", &["1", "2"]), ["3"]);
    assert_eq!(apply("-", &["1", "2"]), ["-1"]);
    assert_eq!(apply("*", &["6", "7"]), ["42"]);
    assert_eq!(apply("%", &["7", "3"]), ["1"]);
    assert_eq!(apply("+", &["a", "2"]), ["host +"]);
    assert_eq!(apply("%", &["7", "0"]), ["% by zero"]);
    assert_eq!(apply("%", &["7.5", "2"]), ["% requires integers"]);
}

#[test]
fn comparisons_give_truth_values() {
    assert_eq!(apply("<", &["1", "2"]), ["true"]);
    assert_eq!(apply(">", &["1", "2"]), ["false"]);
    assert_eq!(apply("<=", &["2", "2"]), ["true"]);
    assert_eq!(apply(">=", &["1.5", "2"]), ["false"]);
}

#[test]
fn equality_is_of_structure() {
    assert_eq!(apply("==", &["(a 1)", "(a 1)"]), ["true"]);
    assert_eq!(apply("==", &["(a 1)", "(a 2)"]), ["false"]);
    assert_eq!(apply("!=", &["a", "b"]), ["true"]);
    assert_eq!(apply("=alpha", &["(p $x $y)", "(p $a $b)"]), ["true"]);
    assert_eq!(apply("=alpha", &["(p $x $x)", "(p $a $b)"]), ["false"]);
}

#[test]
fn alpha_equality_goes_both_ways() {
    assert!(alpha_eq(&atom("(p $x)"), &atom("(p $x)")));
    assert!(alpha_eq(&atom("(p \"s\" $x)"), &atom("(p \"s\" $y)")));
    assert!(!alpha_eq(&atom("(p \"s\")"), &atom("(p \"t\")")));
    assert!(!alpha_eq(&atom("(p $x $y)"), &atom("(p $a $a)")));
    assert!(!alpha_eq(&atom("(p $a $a)"), &atom("(p $x $y)")));
}

#[test]
fn lists_are_taken_apart_and_put_together() {
    assert_eq!(apply("size-atom", &["(a b c)"]), ["3"]);
    assert_eq!(apply("car-atom", &["(a b)"]), ["a"]);
    assert_eq!(apply("cdr-atom", &["(a b c)"]), ["(b c)"]);
    assert_eq!(apply("cons-atom", &["a", "(b c)"]), ["(a b c)"]);
    assert_eq!(apply("decons-atom", &["(a b c)"]), ["(a (b c))"]);
    assert_eq!(apply("append", &["(a)", "(b c)"]), ["(a b c)"]);
    assert_eq!(apply("reverse", &["(a b c)"]), ["(c b a)"]);
    assert_eq!(apply("index-atom", &["(a b c)", "1"]), ["b"]);
    assert_eq!(apply("last", &["(a b c)"]), ["c"]);
    assert_eq!(apply("second", &["(a b c)"]), ["b"]);
    assert_eq!(apply("id", &["(a b)"]), ["(a b)"]);
}

#[test]
fn lists_are_sorted_and_compared_as_sets() {
    assert_eq!(apply("msort", &["(b a c a)"]), ["(a a b c)"]);
    assert_eq!(apply("sort", &["(b a c a)"]), ["(a b c)"]);
    assert_eq!(apply("sort", &["(\"b\" a \"b\" c a)"]), ["(\"b\" a c)"]);
    assert_eq!(apply("is-member", &["b", "(a b)"]), ["true"]);
    assert_eq!(apply("is-member", &["z", "(a b)"]), ["false"]);
    assert_eq!(apply("exclude-item", &["a", "(a b a)"]), ["(b)"]);
    assert_eq!(apply("unique-atom", &["(a b a)"]), ["(a b)"]);
    assert_eq!(apply("union-atom", &["(a)", "(a b)"]), ["(a a b)"]);
    assert_eq!(apply("intersection-atom", &["(a b a)", "(a c)"]), ["(a)"]);
    assert_eq!(apply("subtraction-atom", &["(a b a)", "(a)"]), ["(b a)"]);
}

#[test]
fn names_are_joined() {
    assert_eq!(apply("concat", &["ab", "cd"]), ["abcd"]);
    assert_eq!(apply("atom_chars", &["abc"]), ["(a b c)"]);
}

#[test]
fn text_is_read_and_written() {
    assert_eq!(apply("repr", &["(a 1)"]).len(), 1);
    assert_eq!(apply("parse", &["\"(a 1)\""]), ["(a 1)"]);
    assert!(fails("parse", &["1"]));
}

#[test]
fn tests_and_assertions() {
    assert_eq!(apply("assert", &["true"]), ["true"]);
    assert!(fails("assert", &["false"]));
}

#[test]
fn state_is_changed_and_read() {
    let mut t = FnTable::new();
    register_builtins(&mut t);
    shown(call(&mut t, "change-state!", vec![atom("k"), atom("1")]));
    shown(call(&mut t, "change-state!", vec![atom("other"), atom("9")]));
    shown(call(&mut t, "change-state!", vec![atom("k"), atom("2")]));
    assert_eq!(shown(call(&mut t, "get-state", vec![atom("k")])), ["2"]);
    assert_eq!(shown(call(&mut t, "get-state", vec![atom("other")])), ["9"]);
}

#[test]
fn atoms_of_a_space_are_listed() {
    let mut t = FnTable::new();
    register_builtins(&mut t);
    add_atom(&mut t, &Atom::sym("&kb"), &atom("(a)")).unwrap();
    add_atom(&mut t, &Atom::sym("&kb"), &atom("(b)")).unwrap();
    assert_eq!(shown(call(&mut t, "get-atoms", vec![atom("&kb")])), ["(a)", "(b)"]);
}

#[test]
fn kinds_and_types_of_atoms() {
    assert_eq!(apply("is-var", &["$x"]), ["true"]);
    assert_eq!(apply("is-var", &["x"]), ["false"]);
    assert_eq!(apply("is-expr", &["(a)"]), ["true"]);
    assert_eq!(apply("get-metatype", &["(a)"]), ["Expression"]);
    assert_eq!(apply("get-metatype", &["$x"]), ["Variable"]);
    assert_eq!(apply("get-type", &["1"]), ["Number"]);
    assert_eq!(apply("get-type", &["true"]), ["Bool"]);
}

#[test]
fn declared_types_are_found() {
    let mut t = FnTable::new();
    register_builtins(&mut t);
    add_atom(&mut t, &Atom::sym("&self"), &atom("(: f (-> Number Bool))")).unwrap();
    add_atom(&mut t, &Atom::sym("&self"), &atom("(: c Color)")).unwrap();
    assert_eq!(shown(call(&mut t, "get-type", vec![atom("c")])), ["Color"]);
    assert_eq!(shown(call(&mut t, "get-type", vec![atom("(f 1)")])), ["Bool"]);
}

#[test]
fn hosts_compute_with_fractions() {
    assert_eq!(apply("sqrt-math", &["2"]), ["host sqrt-math"]);
}

#[test]
fn random_integers_stay_in_range() {
    for _ in 0..50 {
        let n = random_int(3, 6).unwrap().as_num().unwrap();
        assert!(3 <= n && n <= 6);
    }
    assert_eq!(random_int(4, 4).unwrap().as_num(), Ok(4));
    assert_eq!(random_int(6, 3).err().unwrap(), "random-int: min 6 > max 3");
}

#[test]
fn hashers_are_fed_kind_and_contents() {
    let words: Vec<String> = hash_words(&atom("(a (7) \"s\")"))
        .into_iter()
        .map(|w| match w {
            HashWord::Kind(k) => format!("kind {}", k),
            HashWord::Text(s) => s,
            HashWord::Count(n) => format!("count {}", n),
            HashWord::Key(k) => format!("key {}", k),
        })
        .collect();
    assert_eq!(
        words,
        ["kind 3", "count 3", "kind 0", "a", "kind 3", "count 1", "kind 2", "7", "kind 1", "s"]
    );
}

#[test]
fn leftmost_copies_are_shared() {
    assert_eq!(apply("intersection-atom", &["(a b a c a)", "(a a d)"]), ["(a a)"]);
    assert_eq!(apply("subtraction-atom", &["(a b a c a)", "(a a d)"]), ["(b c a)"]);
    assert_eq!(apply("decons-atom", &["(a b c)"]), ["(a (b c))"]);
    assert_eq!(apply("cons-atom", &["a", "(b c)"]), ["(a b c)"]);
    assert!(apply("car-atom", &["()"]).is_empty());
    assert!(apply("cdr-atom", &["()"]).is_empty());
    assert!(fails("car", &["()"]));
    assert!(fails("decons", &["()"]));
}
