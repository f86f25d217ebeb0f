//! Whole programs, from their text to their values.
use mork_metta::atom::Atom;
use mork_metta::builtins::register_builtins;
use mork_metta::env::Env;
use mork_metta::eval::runtime::eval_scope;
use mork_metta::eval::runtime::resume;
use mork_metta::eval::runtime::run_budgeted;
use mork_metta::eval::runtime::Evaluation;
use mork_metta::compile::reify::expr_to_atom;
use mork_metta::func::FnTable;
use mork_metta::parser::parse_forms;
use mork_metta::parser::TopForm;
use mork_metta::space::add_atom;

fn outcome(src: &str) -> Vec<Result<Vec<String>, String>> {
    let mut table = FnTable::new();
    register_builtins(&mut table);
    let space = Atom::sym("&self");
    let mut all = Vec::new();
    for form in parse_forms(src).unwrap() {
        match form {
            TopForm::Definition(e) => {
                add_atom(&mut table, &space, &expr_to_atom(&e)).unwrap();
            }
            TopForm::Runnable(e) => {
                let (out, _) = eval_scope(&e, &Env::new(), &mut table, 1_000_000);
                all.push(match out {
                    Evaluation::Values(vs, _) => {
                        Ok(vs.iter().map(|a| a.to_sexpr_string()).collect())
                    }
                    Evaluation::Error(m) => Err(m),
                    Evaluation::Host(_, _) => Err("host".to_string()),
                    Evaluation::Unfinished(_) => Err("unfinished".to_string()),
                });
            }
        }
    }
    all
}

fn values(src: &str) -> Vec<String> {
    outcome(src).pop().unwrap().unwrap()
}

#[test]
fn adds_numbers() {
    assert_eq!(values("!(+ 1 2)"), ["3"]);
}

#[test]
fn recursion_computes_factorials() {
    let src = "(= (fact $n) (if (== $n 0) 1 (* $n (fact (- $n 1))))) !(fact 20)";
    assert_eq!(values(src), ["2432902008176640000"]);
}

#[test]
fn superpose_gives_alternatives() {
    assert_eq!(values("!(superpose (1 2 3))"), ["1", "2", "3"]);
}

#[test]
fn collapse_gathers_alternatives() {
    assert_eq!(values("!(collapse (superpose (1 2 3)))"), ["(1 2 3)"]);
}

#[test]
fn match_finds_facts() {
    let src = "(parent tom bob) (parent tom liz) !(match &self (parent tom $x) $x)";
    assert_eq!(values(src), ["bob", "liz"]);
}

#[test]
fn several_clauses_give_several_values() {
    let src = "(= (color) red) (= (color) green) !(color)";
    assert_eq!(values(src), ["red", "green"]);
}

#[test]
fn let_binds_variables() {
    assert_eq!(values("!(let $x 5 (+ $x 1))"), ["6"]);
}

#[test]
fn let_star_binds_in_order() {
    assert_eq!(values("!(let* (($x 1) ($y (+ $x 1))) (+ $x $y))"), ["3"]);
}

#[test]
fn case_selects_the_first_match() {
    assert_eq!(values("!(case 2 ((1 one) (2 two) ($else many)))"), ["two"]);
}

#[test]
fn closures_are_applied() {
    assert_eq!(values("!((|-> ($x) (* $x $x)) 7)"), ["49"]);
}

#[test]
fn a_transaction_without_a_result_is_undone() {
    let src = "!(progn (transaction (progn (add-atom &self (kept 1)) (empty)))) \
               !(collapse (match &self (kept $x) $x))";
    assert_eq!(values(src), ["()"]);
}

fn with_budget(src: &str, budget: Option<i64>) -> Evaluation {
    let mut table = FnTable::new();
    register_builtins(&mut table);
    let space = Atom::sym("&self");
    let mut last = None;
    for form in parse_forms(src).unwrap() {
        match form {
            TopForm::Definition(e) => {
                add_atom(&mut table, &space, &expr_to_atom(&e)).unwrap();
            }
            TopForm::Runnable(e) => last = Some(e),
        }
    }
    run_budgeted(&last.unwrap(), &Env::new(), &mut table, budget, 1_000_000).0
}

#[test]
fn budgets_run_out() {
    let src = "!(add-atom &self (n 1 2 3))";
    assert!(matches!(with_budget(src, Some(1)), Evaluation::Error(_)));
    assert!(matches!(with_budget(src, Some(1_000)), Evaluation::Values(_, Some(left)) if left < 1_000));
    assert!(matches!(with_budget("!(+ 1 2)", Some(1_000_000)), Evaluation::Values(_, Some(_))));
    assert!(matches!(with_budget("!(+ 1 2)", None), Evaluation::Values(_, None)));
}

#[test]
fn evaluation_goes_on_after_an_interruption() {
    let mut table = FnTable::new();
    register_builtins(&mut table);
    let e = match parse_forms("!(+ (* 2 3) (- 10 4))").unwrap().pop().unwrap() {
        TopForm::Runnable(e) => e,
        TopForm::Definition(e) => e,
    };
    let (mut out, _) = eval_scope(&e, &Env::new(), &mut table, 1);
    let mut rounds = 0;
    let values = loop {
        match out {
            Evaluation::Unfinished(ev) => {
                rounds += 1;
                out = resume(ev, &mut table, 1).0;
            }
            Evaluation::Values(vs, _) => break vs,
            _ => panic!("stopped"),
        }
    };
    assert!(rounds > 0);
    assert_eq!(values[0].as_num(), Ok(12));
}

#[test]
fn hosts_answer_suspended_evaluations() {
    let mut table = FnTable::new();
    register_builtins(&mut table);
    let e = match parse_forms("!(sqrt-math 16)").unwrap().pop().unwrap() {
        TopForm::Runnable(e) => e,
        TopForm::Definition(e) => e,
    };
    match eval_scope(&e, &Env::new(), &mut table, 1_000).0 {
        Evaluation::Host(_, mut ev) => {
            ev.supply(vec![Atom::num(4)]);
            match resume(ev, &mut table, 1_000).0 {
                Evaluation::Values(vs, _) => assert_eq!(vs[0].as_num(), Ok(4)),
                _ => panic!("no value"),
            }
        }
        _ => panic!("no question"),
    }
}

#[test]
fn failed_transactions_are_undone() {
    let src = "!(progn (transaction (progn (add-atom &self (n 1)) (empty))) (collapse (match &self (n $x) $x)))";
    assert_eq!(values(src), ["()"]);
    let kept = "!(progn (transaction (add-atom &self (n 1))) (collapse (match &self (n $x) $x)))";
    assert_eq!(values(kept), ["(1)"]);
}

#[test]
fn cases_choose_the_first_clause_that_fits() {
    assert_eq!(values("!(case 2 ((1 one) ($x (other $x))))"), ["(other 2)"]);
    assert_eq!(values("!(case (empty) ((Empty none)))"), ["none"]);
    assert!(outcome("!(case 5 ((1 one)))").pop().unwrap().is_err());
}

#[test]
fn chains_bind_each_value() {
    assert_eq!(values("!(chain (+ 1 1) $x (* $x 5))"), ["10"]);
}

#[test]
fn folds_run_over_lists_and_alternatives() {
    assert_eq!(values("!(foldl-atom (1 2 3) 0 +)"), ["6"]);
    assert_eq!(values("!(foldall + (superpose (1 2 3)) 0)"), ["6"]);
    assert_eq!(values("(= (inc $x) (+ $x 1)) !(map-atom (1 2 3) inc)"), ["(2 3 4)"]);
    assert_eq!(values("(= (pos $x) (> $x 0)) !(filter-atom (1 -2 3) pos)"), ["(1 3)"]);
}

#[test]
fn quantifiers_look_at_every_alternative() {
    assert_eq!(values("(= (pos $x) (> $x 0)) !(forall (superpose (1 2)) pos)"), ["true"]);
    assert_eq!(values("(= (pos $x) (> $x 0)) !(forall (superpose (1 -2)) pos)"), ["false"]);
}

#[test]
fn quoted_code_stays_code_until_evaluated() {
    assert_eq!(values("!(quote (+ 1 2))"), ["(+ 1 2)"]);
    assert_eq!(values("!(let $c (quote (+ 1 2)) (eval $c))"), ["3"]);
}

#[test]
fn spaces_change_while_programs_run() {
    let src = "!(add-atom &kb (p 1)) !(add-atom &kb (p 2)) !(remove-atom &kb (p 1)) !(match &kb (p $x) $x)";
    assert_eq!(values(src), ["2"]);
}

#[test]
fn states_are_kept_between_expressions() {
    assert_eq!(values("!(bind! counter 1) !(change-state! counter 5) !(get-state counter)"), ["5"]);
}

#[test]
fn logic_is_defined_by_truth_tables() {
    assert_eq!(values("!(and true false)"), ["false"]);
    assert_eq!(values("!(or true false)"), ["true"]);
    assert_eq!(values("!(not true)"), ["false"]);
}

#[test]
fn searches_answer_through_indirect_variables() {
    let src = "(k 5) (= (q $p $r) (once (match &self $p $r))) !(q (k $x) $x)";
    assert_eq!(values(src), ["5"]);
    let src = "(k 5) (k 6) (= (q $p $r) (match &self $p (found $r))) !(q (k $x) $x)";
    assert_eq!(values(src), ["(found 5)", "(found 6)"]);
    let src = "(p 5) (= (f $a) (once (match &self (p $a) $a))) !(f $y)";
    assert_eq!(values(src), ["5"]);
}
