//! The forms of the language, in programs.
use mork_metta::atom::Atom;
use mork_metta::builtins::register_builtins;
use mork_metta::compile::reify::expr_to_atom;
use mork_metta::env::Env;
use mork_metta::eval::machine::vm::outcome::HostCall;
use mork_metta::eval::runtime::eval_scope;
use mork_metta::eval::runtime::resume;
use mork_metta::eval::runtime::Evaluation;
use mork_metta::func::FnTable;
use mork_metta::parser::parse_forms;
use mork_metta::parser::TopForm;
use mork_metta::space::add_atom;

fn run(src: &str) -> (Result<Vec<String>, String>, Vec<String>) {
    let mut table = FnTable::new();
    register_builtins(&mut table);
    let space = Atom::sym("&self");
    let mut last = Err("nothing to run".to_string());
    let mut lines = Vec::new();
    for form in parse_forms(src).unwrap() {
        match form {
            TopForm::Definition(e) => {
                add_atom(&mut table, &space, &expr_to_atom(&e)).unwrap();
            }
            TopForm::Runnable(e) => {
                let (out, printed) = eval_scope(&e, &Env::new(), &mut table, 2_000_000);
                lines.extend(printed);
                last = match out {
                    Evaluation::Values(vs, _) => {
                        Ok(vs.iter().map(|a| a.to_sexpr_string()).collect())
                    }
                    Evaluation::Error(m) => Err(m),
                    Evaluation::Host(_, _) => Err("host".to_string()),
                    Evaluation::Unfinished(_) => Err("unfinished".to_string()),
                };
            }
        }
    }
    (last, lines)
}

fn value(src: &str) -> Vec<String> {
    run(src).0.unwrap()
}

fn error(src: &str) -> String {
    run(src).0.unwrap_err()
}

#[test]
fn once_keeps_the_first_value() {
    assert_eq!(value("!(once (superpose (1 2 3)))"), ["1"]);
}

#[test]
fn sequences_give_the_last_or_the_first() {
    assert_eq!(value("!(progn 1 2 3)"), ["3"]);
    assert_eq!(value("!(prog1 1 2 3)"), ["1"]);
}

#[test]
fn bindings_in_order_see_each_other() {
    assert_eq!(value("!(let* (($x 1) ($y (+ $x 1))) (+ $x $y))"), ["3"]);
    assert_eq!(value("!(let ($a $b) (1 2) ($b $a))"), ["(2 1)"]);
    assert!(value("!(let (a $b) (c 2) $b)").is_empty());
}

#[test]
fn conditions_without_an_alternative_may_give_nothing() {
    assert!(value("!(if (> 1 2) yes)").is_empty());
    assert_eq!(value("!(if (> 2 1) yes)"), ["yes"]);
    assert_eq!(value("!(if (superpose (true false)) 1 2)"), ["1", "2"]);
}

#[test]
fn within_marks_its_values() {
    assert_eq!(value("!(within (+ 1 2))"), ["(within 3)"]);
}

#[test]
fn nothing_comes_from_empty() {
    assert!(value("!(empty)").is_empty());
    assert!(value("!(+ 1 (empty))").is_empty());
    assert_eq!(value("!(collapse (empty))"), ["()"]);
}

#[test]
fn tests_print_and_are_true() {
    let (out, lines) = run("!(test (+ 1 2) 3)");
    assert_eq!(out.unwrap(), ["true"]);
    assert_eq!(lines.len(), 1);
}

#[test]
fn printing_gives_true() {
    let (out, lines) = run("!(println! (a b))");
    assert_eq!(out.unwrap(), ["true"]);
    assert_eq!(lines.len(), 1);
}

#[test]
fn tail_calls_do_not_run_out() {
    let src = "(= (count $n) (if (== $n 0) done (count (- $n 1)))) !(count 2000)";
    assert_eq!(value(src), ["done"]);
}

#[test]
fn recursion_branches() {
    let src = "(= (fib $n) (if (< $n 2) $n (+ (fib (- $n 1)) (fib (- $n 2))))) !(fib 12)";
    assert_eq!(value(src), ["144"]);
}

#[test]
fn nondeterminism_multiplies() {
    let src = "(= (bit) 0) (= (bit) 1) !(collapse ((bit) (bit)))";
    assert_eq!(value(src), ["((0 0) (0 1) (1 0) (1 1))"]);
}

#[test]
fn matches_join_over_spaces() {
    let src = "(p a b) (p b c) (p c d) !(match &self (p $x $y) (match &self (p $y $z) ($x $z)))";
    assert_eq!(value(src), ["(a c)", "(b d)"]);
}

#[test]
fn facts_may_hold_variables() {
    let src = "(likes bob tea) !(match &self (likes $who tea) $who)";
    assert_eq!(value(src), ["bob"]);
}

#[test]
fn patterns_take_lists_apart() {
    let src = "(= (len ()) 0) (= (len (cons $h $t)) (+ 1 (len $t))) !(len (cons a (cons b ())))";
    assert_eq!(value(src), ["2"]);
}

#[test]
fn closures_are_values() {
    assert_eq!(value("!(let $f (|-> ($x) (+ $x 1)) ($f 5))"), ["6"]);
    let src = "(= (apply $f $x) ($f $x)) !(apply (|-> ($y) (* $y $y)) 7)";
    assert_eq!(value(src), ["49"]);
}

#[test]
fn missing_arguments_make_partial_calls() {
    let src = "(= (addn $n $x) (+ $x $n)) !(addn 3)";
    assert_eq!(value(src), ["(partial addn (3))"]);
    let src = "(= (addn $n $x) (+ $x $n)) !((addn 3) 4)";
    assert_eq!(value(src), ["7"]);
}

#[test]
fn functions_are_values() {
    let src = "(= (twice $f $x) ($f ($f $x))) (= (inc $x) (+ $x 1)) !(twice inc 5)";
    assert_eq!(value(src), ["7"]);
}

#[test]
fn folds_name_their_variables() {
    assert_eq!(value("!(foldl-atom (1 2 3) 10 $a $b (+ $a $b))"), ["16"]);
}

#[test]
fn sums_of_alternatives() {
    assert_eq!(value("!(foldall + (superpose (1 2 3 4)) 0)"), ["10"]);
    assert_eq!(value("!(foldall + (empty) 7)"), ["7"]);
}

#[test]
fn unknown_heads_make_data() {
    assert_eq!(value("!(foo 1 (+ 1 1))"), ["(foo 1 2)"]);
}

#[test]
fn removed_definitions_are_gone() {
    let src = "(= (f) 1) (= (f) 2) !(remove-atom &self (= (f) 1)) !(f)";
    assert_eq!(value(src), ["2"]);
}

#[test]
fn added_definitions_run() {
    assert_eq!(value("!(add-atom &self (= (g $x) (* $x 2))) !(g 21)"), ["42"]);
}

#[test]
fn imports_are_asked_of_the_host() {
    assert_eq!(error("!(progn (import! &self lib))"), "host");
    assert_eq!(error("!(readln!)"), "host");
}

#[test]
fn answers_and_refusals_of_the_host() {
    let mut table = FnTable::new();
    register_builtins(&mut table);
    let e = match parse_forms("!(foo (readln!))").unwrap().pop().unwrap() {
        TopForm::Runnable(e) => e,
        TopForm::Definition(e) => e,
    };
    match eval_scope(&e, &Env::new(), &mut table, 1_000).0 {
        Evaluation::Host(call, mut ev) => {
            assert!(matches!(call, HostCall::Readln));
            ev.supply(vec![Atom::sym("typed")]);
            match resume(ev, &mut table, 1_000).0 {
                Evaluation::Values(vs, _) => {
                    assert_eq!(vs[0].to_sexpr_string(), "(foo typed)")
                }
                _ => panic!("no value"),
            }
        }
        _ => panic!("no question"),
    }
    match eval_scope(&e, &Env::new(), &mut table, 1_000).0 {
        Evaluation::Host(_, mut ev) => {
            ev.refuse("closed".to_string());
            match resume(ev, &mut table, 1_000).0 {
                Evaluation::Error(m) => assert!(m.contains("closed")),
                _ => panic!("no error"),
            }
        }
        _ => panic!("no question"),
    }
}

#[test]
fn mutexes_let_their_bodies_run() {
    assert_eq!(value("!(progn (with_mutex m (+ 1 2)))"), ["3"]);
}

#[test]
fn tail_calls_match_the_clauses_anew() {
    let src = "(= (go 0) done) (= (go $n) (if (> $n 0) (go (- $n 1)) (empty))) !(collapse (go 3))";
    assert_eq!(value(src), ["(done)"]);
    let src = "(= (sum () $acc) $acc) (= (sum (cons $h $t) $acc) (sum $t (+ $acc $h))) !(sum (cons 1 (cons 2 ())) 10)";
    assert_eq!(value(src), ["13"]);
    let src = "(= (walk $n) (let $m (superpose ($n 0)) (if (== $m 0) end (walk (- $m 1))))) !(collapse (walk 2))";
    assert_eq!(value(src), ["(end end end end)"]);
}

#[test]
fn calls_bind_free_variables_to_the_literals_of_clauses() {
    let src = "(= (g 1) 10) (= (g 2) 20) !(let $r (g $x) ($x $r))";
    assert_eq!(value(src), ["(1 10)", "(2 20)"]);
    let src = "(= (g 1) 10) (= (g 2) 20) !(foldall + (g $x) 0)";
    assert_eq!(value(src), ["30"]);
    let src = "(= (and2 true true) true) !(if (and2 $x $y) ($x $y) none)";
    assert_eq!(value(src), ["(true true)"]);
}

#[test]
fn alternatives_nest() {
    let src = "!(let $x (superpose (1 2)) (let $y (superpose (a b)) ($x $y)))";
    assert_eq!(value(src), ["(1 a)", "(1 b)", "(2 a)", "(2 b)"]);
    assert_eq!(
        value("!(let* (($x (superpose (1 2))) ($y (+ $x 1))) ($x $y))"),
        ["(1 2)", "(2 3)"]
    );
    assert_eq!(
        value("!(case (superpose (1 2 3)) ((1 one) (2 two) ($else many)))"),
        ["one", "two", "many"]
    );
}

#[test]
fn accumulators_are_exact() {
    let src = "(= (fact $n $acc) (if (== $n 0) $acc (fact (- $n 1) (* $acc $n)))) !(fact 25 1)";
    assert_eq!(value(src), ["15511210043330985984000000"]);
}

#[test]
fn printed_lines_come_in_order() {
    let (out, lines) = run("!(prog1 (+ 1 1) (println! first) (println! second))");
    assert_eq!(out.unwrap(), ["2"]);
    assert_eq!(lines, ["first", "second"]);
}

#[test]
fn failures_say_what_is_wrong() {
    assert_eq!(error("!(get-state none)"), "get-state: no value for key 'none'");
    assert_eq!(error("!(index-atom (a b) 5)"), "index-atom: index 5 out of bounds (len 2)");
    assert_eq!(error("!(assert (== 1 2))"), "Assertion failed: false");
    assert!(value("!(car-atom ())").is_empty());
}
