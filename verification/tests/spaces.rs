//! Spaces, functions and state.
use mork_metta::atom::Atom;
use mork_metta::compile::compile_definition;
use mork_metta::compile::reify::expr_to_atom;
use mork_metta::env::Env;
use mork_metta::eval::forms::query::canon_clause;
use mork_metta::eval::forms::query::lookup_user_clauses;
use mork_metta::eval::forms::query::lookup_user_clauses_via_space;
use mork_metta::eval::machine::state::unify;
use mork_metta::expr::Expr;
use mork_metta::func::FnTable;
use mork_metta::parser::parse_forms;
use mork_metta::parser::TopForm;
use mork_metta::space::add_atom;
use mork_metta::space::add_atoms_bulk;
use mork_metta::space::collect_match_results;
use mork_metta::space::match_atoms;
use mork_metta::space::remove_atom;

fn expr(s: &str) -> Expr {
    match parse_forms(s).unwrap().pop().unwrap() {
        TopForm::Definition(e) => e,
        TopForm::Runnable(e) => e,
    }
}

fn atom(s: &str) -> Atom {
    expr_to_atom(&expr(s))
}

fn held(t: &FnTable, name: &str) -> Vec<String> {
    t.space_atoms(name).iter().map(|a| a.to_sexpr_string()).collect()
}

#[test]
fn added_atoms_are_found_in_order() {
    let mut t = FnTable::new();
    let s = Atom::sym("&self");
    add_atom(&mut t, &s, &atom("(p a 1)")).unwrap();
    add_atom(&mut t, &s, &atom("(q a)")).unwrap();
    add_atom(&mut t, &s, &atom("(p b 2)")).unwrap();
    let found = collect_match_results(&t, &s, &expr("(p $x $y)"), &Env::new()).unwrap();
    assert_eq!(found.len(), 2);
    assert_eq!(found[0].atom.to_sexpr_string(), "(p a 1)");
    assert_eq!(found[1].atom.to_sexpr_string(), "(p b 2)");
    assert_eq!(found[1].bindings.len(), 2);
    let env = Env::new().extend("$x", Atom::sym("b"));
    let bound = collect_match_results(&t, &s, &expr("(p $x $y)"), &env).unwrap();
    assert_eq!(bound.len(), 1);
    assert!(collect_match_results(&t, &Atom::num(1), &expr("$x"), &Env::new()).is_err());
}

#[test]
fn repeated_variables_have_to_agree() {
    let list = vec![atom("(p 1 1)"), atom("(p 1 2)")];
    let found = match_atoms(&expr("(p $x $x)"), &list);
    assert_eq!(found.len(), 1);
    assert_eq!(found[0].atom.to_sexpr_string(), "(p 1 1)");
}

#[test]
fn adding_then_removing_leaves_the_space() {
    let mut t = FnTable::new();
    let s = Atom::sym("&self");
    add_atom(&mut t, &s, &atom("(a)")).unwrap();
    add_atom(&mut t, &s, &atom("(b)")).unwrap();
    assert_eq!(remove_atom(&mut t, &s, &atom("(b)")), Ok(true));
    assert_eq!(held(&t, "&self"), ["(a)"]);
    assert_eq!(remove_atom(&mut t, &s, &atom("(b)")), Ok(false));
    assert!(remove_atom(&mut t, &Atom::num(1), &atom("(b)")).is_err());
}

#[test]
fn only_one_copy_is_removed() {
    let mut t = FnTable::new();
    let s = Atom::sym("&self");
    add_atoms_bulk(&mut t, &s, &vec![atom("(a)"), atom("(b)"), atom("(a)")]).unwrap();
    assert_eq!(remove_atom(&mut t, &s, &atom("(a)")), Ok(true));
    assert_eq!(held(&t, "&self"), ["(b)", "(a)"]);
}

#[test]
fn spaces_do_not_touch_each_other() {
    let mut t = FnTable::new();
    add_atom(&mut t, &Atom::sym("&self"), &atom("(a)")).unwrap();
    add_atom(&mut t, &Atom::sym("&kb"), &atom("(b)")).unwrap();
    assert_eq!(held(&t, "&self"), ["(a)"]);
    assert_eq!(held(&t, "&kb"), ["(b)"]);
    assert!(held(&t, "&none").is_empty());
}

#[test]
fn definitions_become_clauses_and_leave_with_their_atom() {
    let mut t = FnTable::new();
    let s = Atom::sym("&self");
    add_atom(&mut t, &s, &atom("(= (f 1) a)")).unwrap();
    add_atom(&mut t, &s, &atom("(= (f $x) $x)")).unwrap();
    assert_eq!(t.clauses_of("f", 1).unwrap().len(), 2);
    assert_eq!(lookup_user_clauses("f", 1, &t).unwrap().len(), 2);
    assert_eq!(lookup_user_clauses_via_space("f", 1, &t).unwrap().len(), 2);
    remove_atom(&mut t, &s, &atom("(= (f 1) a)")).unwrap();
    let left = t.clauses_of("f", 1).unwrap();
    assert_eq!(left.len(), 1);
    assert_eq!(left[0].body.to_text(), "$x");
    assert!(lookup_user_clauses("g", 1, &t).is_none());
}

#[test]
fn definitions_are_compiled() {
    let (name, clause) = compile_definition(&expr("(= (f $x 2) (g $x))")).unwrap();
    assert_eq!(name, "f");
    assert_eq!(clause.patterns.len(), 2);
    assert_eq!(clause.body.to_text(), "(g $x)");
    assert!(compile_definition(&expr("(f 1)")).is_err());
}

#[test]
fn canonical_clauses_ignore_names() {
    let (_, a) = compile_definition(&expr("(= (f $x $y) (g $y $x))")).unwrap();
    let (_, b) = compile_definition(&expr("(= (f $p $q) (g $q $p))")).unwrap();
    let (_, c) = compile_definition(&expr("(= (f $p $q) (g $p $q))")).unwrap();
    assert_eq!(canon_clause(&a), canon_clause(&b));
    assert!(canon_clause(&a) != canon_clause(&c));
}

#[test]
fn snapshots_bring_back_functions_spaces_and_state() {
    let mut t = FnTable::new();
    let s = Atom::sym("&self");
    add_atom(&mut t, &s, &atom("(a)")).unwrap();
    t.set_state("k", Atom::num(1));
    let snap = t.snapshot();
    add_atom(&mut t, &s, &atom("(= (f) 1)")).unwrap();
    t.set_state("k", Atom::num(2));
    t.restore(snap);
    assert_eq!(held(&t, "&self"), ["(a)"]);
    assert_eq!(t.get_state("k").unwrap().as_num(), Ok(1));
    assert!(t.clauses_of("f", 0).is_none());
}

#[test]
fn remembered_calls_are_forgotten_when_functions_change() {
    let mut t = FnTable::new();
    t.memo_set("f", vec![Atom::num(1)], vec![Atom::num(2)]);
    assert_eq!(t.memo_get("f", &vec![Atom::num(1)]).unwrap()[0].as_num(), Ok(2));
    assert!(t.memo_get("f", &vec![Atom::num(2)]).is_none());
    add_atom(&mut t, &Atom::sym("&self"), &atom("(= (f $x) 1)")).unwrap();
    assert!(t.memo_get("f", &vec![Atom::num(1)]).is_none());
}

#[test]
fn fresh_numbers_go_up() {
    let mut t = FnTable::new();
    let a = t.next_fresh_id();
    let b = t.next_fresh_id();
    assert!(b > a);
}

#[test]
fn unification_finds_bindings() {
    let found = unify(&atom("(p a $y)"), &atom("(p $x 2)")).unwrap();
    assert!(found.iter().any(|(n, v)| n == "$x" && v.to_sexpr_string() == "a"));
    assert!(unify(&atom("(p a)"), &atom("(p b)")).is_none());
    assert!(unify(&atom("(p a)"), &atom("(p a b)")).is_none());
}

#[test]
fn patterns_of_a_search_follow_variables() {
    let mut t = FnTable::new();
    let s = Atom::sym("&self");
    add_atom(&mut t, &s, &atom("(p 5)")).unwrap();
    let env = Env::new().extend("$a", Atom::sym("$y"));
    let found = collect_match_results(&t, &s, &expr("(p $a)"), &env).unwrap();
    assert_eq!(found.len(), 1);
    assert_eq!(found[0].bindings[0].0, "$y");
    assert_eq!(found[0].bindings[0].1.as_num(), Ok(5));
}

#[test]
fn canonical_clauses_number_variables_in_order() {
    let (_, a) = compile_definition(&expr("(= (f $x (h $y) $x) (g $z $y $x))")).unwrap();
    assert_eq!(canon_clause(&a), "$0 (h $1) $0 => (g $2 $1 $0)");
    let (_, b) = compile_definition(&expr("(= (f $y (h $x) $y) (g $w $x $y))")).unwrap();
    assert_eq!(canon_clause(&a), canon_clause(&b));
}

#[test]
fn unification_binds_only_its_own_names() {
    let found = unify(&atom("(p $a (q $b) 3)"), &atom("(p 1 $c $d)")).unwrap();
    for (n, v) in &found {
        assert!(["$a", "$b", "$c", "$d"].contains(&n.as_str()));
        assert!(!v.to_sexpr_string().contains(n.as_str()));
    }
    assert_eq!(found.len(), 3);
    assert!(unify(&atom("(f $x)"), &atom("$x")).is_none());
}

#[test]
fn definitions_unify_by_their_heads() {
    let found = unify(&atom("(f 1)"), &atom("(= (f $x) (g $x))")).unwrap();
    assert!(found.iter().any(|(n, v)| n == "$x" && v.to_sexpr_string() == "1"));
    let indirect = unify(&atom("(k (= (f 1) 2) (f 1))"), &atom("(k $d $d)"));
    assert!(indirect.is_some());
    let other = unify(&atom("(k (= (f 1) 2) (f 2))"), &atom("(k $d $d)"));
    assert!(other.is_none());
}
