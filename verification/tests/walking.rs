//! The tree-walking evaluator.
use mork_metta::atom::Atom;
use mork_metta::builtins::register_builtins;
use mork_metta::compile::reify::expr_to_atom;
use mork_metta::env::Env;
use mork_metta::eval::machine::vm::outcome::HostCall;
use mork_metta::eval::walker::HostAnswer;
use mork_metta::eval::walker::Stop;
use mork_metta::eval::walker::Walker;
use mork_metta::func::FnTable;
use mork_metta::parser::parse_forms;
use mork_metta::parser::TopForm;
use mork_metta::space::add_atom;

fn walk(src: &str, answers: Vec<HostAnswer>) -> (Result<Vec<String>, String>, Vec<String>) {
    walk_to(src, answers, 60)
}

fn walk_to(
    src: &str,
    answers: Vec<HostAnswer>,
    depth: u64,
) -> (Result<Vec<String>, String>, Vec<String>) {
    let mut table = FnTable::new();
    register_builtins(&mut table);
    let space = Atom::sym("&self");
    let mut last = None;
    for form in parse_forms(src).unwrap() {
        match form {
            TopForm::Definition(e) => {
                add_atom(&mut table, &space, &expr_to_atom(&e)).unwrap();
            }
            TopForm::Runnable(e) => last = Some(e),
        }
    }
    let mut w = Walker::new(table, answers);
    let out = match w.eval(&last.unwrap(), &Env::new(), depth) {
        Ok(vs) => Ok(vs.iter().map(|a| a.to_sexpr_string()).collect()),
        Err(Stop::Error(m)) => Err(m),
        Err(Stop::Host(_)) => Err("host".to_string()),
        Err(Stop::Deep) => Err("deep".to_string()),
    };
    (out, w.lines)
}

fn gives(src: &str) -> Vec<String> {
    walk(src, vec![]).0.unwrap()
}

fn error(src: &str) -> String {
    walk(src, vec![]).0.unwrap_err()
}

#[test]
fn walks_literals_and_data() {
    assert_eq!(gives("!(a 1 $x \"s\")"), ["(a 1 $x \"s\")"]);
    assert_eq!(gives("!(a (+ 1 2))"), ["(a 3)"]);
    assert_eq!(gives("!()"), ["()"]);
}

#[test]
fn walks_calls_with_the_first_value_of_each_argument() {
    assert_eq!(gives("!(+ (superpose (1 2)) (superpose (10 20)))"), ["11"]);
    assert_eq!(gives("(= (twice $x) ($x $x)) !(twice (superpose (1 2)))"), ["(1 1)"]);
    assert_eq!(error("!(+ (empty) 1)"), "+: argument 1 produced no results");
    let src = "(= (f 1) a) (= (f $x) b) !(f 1)";
    assert_eq!(gives(src), ["a", "b"]);
}

#[test]
fn walks_conditionals() {
    assert_eq!(gives("!(if (< 1 2) yes no)"), ["yes"]);
    assert_eq!(gives("!(if (< 2 1) yes no)"), ["no"]);
    assert!(gives("!(if (< 2 1) yes)").is_empty());
    assert_eq!(error("!(if a)"), "if: expected 2 or 3 args, got 1");
}

#[test]
fn conditions_bind_free_variables() {
    let src = "(= (both true true) true) (= (pick $x) (both $x true)) !(if (both $x true) (got $x))";
    assert_eq!(gives(src), ["(got true)"]);
}

#[test]
fn walks_sequences_with_visible_bindings() {
    assert_eq!(gives("!(progn (+ 1 1) (+ 2 2))"), ["4"]);
    assert_eq!(gives("!(progn (let $x 5 $x) (+ $x 1))"), ["6"]);
    assert_eq!(gives("!(progn (let* (($x 5)) $x) (+ $x 2))"), ["7"]);
    assert_eq!(gives("(k 3) !(progn (match &self (k $v) $v) (+ $v 1))"), ["4"]);
    assert_eq!(error("!(progn)"), "progn: expected at least one form");
}

#[test]
fn walks_bindings() {
    assert_eq!(gives("!(let ($x $y) (1 2) (+ $x $y))"), ["3"]);
    assert!(gives("!(let (a $x) (b 1) $x)").is_empty());
    assert_eq!(gives("!(let* (($x 1) ($y (+ $x 1))) ($x $y))"), ["(1 2)"]);
    assert_eq!(
        error("!(let* (((a $x) (b 1))) $x)"),
        "let*: pattern does not match value: (a $x) vs (b 1)"
    );
    assert_eq!(error("!(let* a b)"), "let*: first arg must be a list of (pattern val) pairs");
}

#[test]
fn failing_bodies_are_skipped_and_reported() {
    let (out, lines) = walk("!(let $x (superpose (1 a)) (case $x ((1 one))))", vec![]);
    assert_eq!(out.unwrap(), ["one"]);
    assert_eq!(lines, ["DEBUG eval_let error: case: no clause matched value a"]);
}

#[test]
fn walks_quotes_closures_and_evaluation() {
    assert_eq!(gives("!(quote (+ 1 2))"), ["(+ 1 2)"]);
    assert_eq!(gives("!((|-> ($x) (+ $x 1)) 4)"), ["5"]);
    assert_eq!(gives("!(let $c (quote (+ 1 2)) (eval $c))"), ["3"]);
    assert_eq!(gives("!(call (+ 1 2))"), ["3"]);
    assert_eq!(error("!(eval $x)"), "eval: unbound variable $x");
    assert_eq!(error("!(quote)"), "quote: expected 1 arg, got 0");
}

#[test]
fn walks_alternatives_and_their_collection() {
    assert_eq!(gives("!(superpose (1 2 3))"), ["1", "2", "3"]);
    assert_eq!(gives("!(collapse (superpose (1 2)))"), ["(1 2)"]);
    assert_eq!(gives("!(let $l (1 2) (superpose $l))"), ["1", "2"]);
    assert!(gives("!(empty)").is_empty());
}

#[test]
fn walks_chains_and_cases() {
    assert_eq!(gives("!(chain (+ 1 1) $x (* $x 5) $y (- $y 1))"), ["9"]);
    assert_eq!(error("!(chain 1 x 2)"), "chain: arg 1 must be a $variable, got x");
    assert_eq!(gives("!(case 2 ((1 one) ($x (other $x))))"), ["(other 2)"]);
    assert_eq!(gives("!(case (empty) ((Empty none)))"), ["none"]);
    assert_eq!(gives("!(case 5 ((1 one) ($else many)))"), ["many"]);
    assert_eq!(gives("!(case (superpose (1 2)) ((1 a) (2 b)))"), ["a"]);
    assert_eq!(error("!(case 5 ((1 one)))"), "case: no clause matched value 5");
}

#[test]
fn walks_spaces() {
    assert_eq!(gives("(p a) (p b) !(match &self (p $x) (got $x))"), ["(got a)", "(got b)"]);
    assert_eq!(
        gives("!(progn (add-atom &self (n 1)) (match &self (n $x) $x))"),
        ["1"]
    );
    assert_eq!(gives("(n 1) (n 2) !(remove-atom &self (n $x))"), ["true"]);
    assert!(gives("(n 1) !(progn (remove-atom &self (n $x)) (match &self (n $y) $y))").is_empty());
    assert_eq!(gives("!(progn (add-atom &self (= (g $x) (+ $x 1))) (g 4))"), ["5"]);
}

#[test]
fn walks_folds_and_quantifiers() {
    assert_eq!(gives("!(foldall + (superpose (1 2 3)) 0)"), ["6"]);
    let src = "(= (g 1) 10) (= (g 2) 20) !(foldall + (g $x) 0)";
    assert_eq!(gives(src), ["30"]);
    assert_eq!(gives("(= (pos $x) (> $x 0)) !(forall (superpose (1 2)) pos)"), ["true"]);
    assert_eq!(gives("!(forall (superpose (1 -2)) (|-> ($x) (> $x 0)))"), ["false"]);
    assert_eq!(gives("(= (inc $x) (+ $x 1)) !(map-atom (1 2 3) inc)"), ["(2 3 4)"]);
    assert_eq!(gives("!(map-atom (1 2) (|-> ($x) (* $x $x)))"), ["(1 4)"]);
}

#[test]
fn prints_lines() {
    let (out, lines) = walk("!(println! (a b) 3)", vec![]);
    assert_eq!(out.unwrap(), ["true"]);
    assert_eq!(lines, ["a b 3"]);
}

#[test]
fn stops_for_the_host_and_goes_on_with_its_answer() {
    assert_eq!(error("!(+ (readln!) 1)"), "host");
    let (out, _) = walk("!(+ (readln!) 1)", vec![HostAnswer::Values(vec![Atom::num(4)])]);
    assert_eq!(out.unwrap(), ["5"]);
    let (out, _) = walk("!(readln!)", vec![HostAnswer::Error("closed".to_string())]);
    assert_eq!(out.unwrap_err(), "closed");
}

#[test]
fn stops_when_it_goes_too_deep() {
    assert_eq!(error("(= (f $x) (f $x)) !(f 1)"), "deep");
}

#[test]
fn more_depth_and_more_answers_give_the_same() {
    let src = "(= (f $n) (if (== $n 0) (readln!) (+ 1 (f (- $n 1))))) !(f 3)";
    let five = || HostAnswer::Values(vec![Atom::num(5)]);
    assert_eq!(walk_to(src, vec![five()], 40).0.unwrap(), ["8"]);
    assert_eq!(walk_to(src, vec![five()], 80).0.unwrap(), ["8"]);
    assert_eq!(walk_to(src, vec![five(), five()], 40).0.unwrap(), ["8"]);
    assert_eq!(walk_to(src, vec![], 40).0.unwrap_err(), "host");
    assert_eq!(walk_to(src, vec![], 80).0.unwrap_err(), "host");
    assert_eq!(walk_to(src, vec![five()], 3).0.unwrap_err(), "deep");
}

#[test]
fn free_variables_take_the_literals_of_clauses() {
    let src = "(= (g 1) 10) (= (g 2) 20) (= (g $x) 99) !(foldall + (+ (g $x) 1) 0)";
    assert!(walk(src, vec![]).0.is_ok());
    assert_eq!(error("!(foldall a b)"), "foldall: expected (agg-func gen-expr init), got 2 args");
    assert_eq!(error("!(map-atom 5 f)"), "map-atom: expected a list (Expr), got 5");
    assert_eq!(error("!(forall (superpose (1)) 3)"), "forall: check must be a function or closure, got 3");
    assert_eq!(error("!(superpose)"), "superpose: expected exactly 1 argument (a list)");
    assert_eq!(error("!(match &self)"), "match: expected (space pattern body), got 1 args");
    assert_eq!(error("!(add-atom &self)"), "add-atom: expected (space atom), got 1 args");
    assert_eq!(error("!(import! &self 5)"), "import!: file path must be a symbol, not a number");
}

#[test]
fn python_calls_and_plugins_are_left_to_the_host() {
    assert_eq!(error("!(py-call math)"), "py-call: expected at least (module func), got 1 args");
    assert_eq!(error("!(py-call 5 f)"), "py-call: module must be a symbol, got 5");
    assert_eq!(error("!(py-call math sqrt 4)"), "host");
    let (out, _) = walk("!(py-call math sqrt 4)", vec![HostAnswer::Values(vec![Atom::num(2)])]);
    assert_eq!(out.unwrap(), ["2"]);
    assert_eq!(error("!(import-rs!)"), "import-rs!: expected 1 arg (library name), got 0");
    assert_eq!(error("!(import-rs! 5)"), "import-rs!: argument must be a symbol (library name)");
    assert_eq!(error("!(import-rs! lib)"), "host");
}

#[test]
fn python_calls_name_the_function_and_hold_the_values() {
    let mut table = FnTable::new();
    register_builtins(&mut table);
    let e = match parse_forms("!(py-call \"os.path\" join (+ 1 2))").unwrap().pop().unwrap() {
        TopForm::Runnable(e) => e,
        TopForm::Definition(e) => e,
    };
    let mut w = Walker::new(table, vec![]);
    match w.eval(&e, &Env::new(), 30) {
        Err(Stop::Host(HostCall::PyCall(x, _))) => {
            assert_eq!(x.to_text(), "(os.path.join (quote 3))");
        }
        _ => panic!("no call"),
    }
}

#[test]
fn walked_searches_fill_in_variables() {
    assert_eq!(gives("(p 5) !(let $a $1 (match &self (p $a) $a))"), ["5"]);
    assert_eq!(gives("(p 5) (p 6) !(let $a $1 (match &self (p $a) (got $1)))"), ["(got 5)", "(got 6)"]);
    assert_eq!(gives("(p 5) (p 6) !(let $a 6 (match &self (p $a) $a))"), ["6"]);
}

#[test]
fn walked_removals_fill_in_variables() {
    assert_eq!(gives("(n 1) !(let $a $1 (remove-atom &self (n $a)))"), ["true"]);
    assert_eq!(gives("(n 1) !(let $a 2 (remove-atom &self (n $a)))"), [""]);
}
