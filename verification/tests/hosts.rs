//! What is handed to Python and to plugins, and the cost of evaluation.
use mork_metta::atom::Atom;
use mork_metta::env::Env;
use mork_metta::eval::machine::budget::calculate_cost;
use mork_metta::eval::machine::budget::plain;
use mork_metta::eval::machine::budget::threaded_combinations;
use mork_metta::eval::machine::product::cartesian_product;
use mork_metta::eval::python::atom_to_py;
use mork_metta::eval::python::expr_to_py;
use mork_metta::eval::python::split_name;
use mork_metta::eval::python::PyData;
use mork_metta::eval::python::PyPlan;
use mork_metta::expr::Expr;
use mork_metta::math_extra::plugin_call;
use mork_metta::math_extra::plugin_info;
use mork_metta::parser::parse_forms;
use mork_metta::parser::TopForm;

fn expr(s: &str) -> Expr {
    match parse_forms(s).unwrap().pop().unwrap() {
        TopForm::Definition(e) => e,
        TopForm::Runnable(e) => e,
    }
}

#[test]
fn dotted_names_are_split() {
    assert_eq!(split_name("a.b.c"), ["a", "b", "c"]);
    assert_eq!(split_name("a"), ["a"]);
}

#[test]
fn atoms_become_python_data() {
    assert!(matches!(atom_to_py(&Atom::num(3)), PyData::Int(3)));
    match atom_to_py(&Atom::expr(vec![Atom::num(1), Atom::str_val("s")])) {
        PyData::List(items) => {
            assert_eq!(items.len(), 2);
            assert!(matches!(&items[1], PyData::Text(t) if t == "s"));
        }
        _ => panic!("no list"),
    }
}

#[test]
fn expressions_become_python_plans() {
    assert!(matches!(expr_to_py(&expr("7"), &Env::new()), PyPlan::Data(PyData::Int(7))));
    assert!(matches!(expr_to_py(&expr("(math.sqrt 2)"), &Env::new()), PyPlan::Call(_, args) if args.len() == 1));
}

#[test]
fn plugins_answer_by_name() {
    assert!(plugin_info().len() > 0);
    assert!(plugin_call("no such function", 1).is_none());
}

#[test]
fn products_choose_one_of_each() {
    let options = vec![
        vec![Atom::num(1), Atom::num(2)],
        vec![Atom::num(3)],
        vec![Atom::num(4), Atom::num(5)],
    ];
    let all: Vec<Vec<i128>> = cartesian_product(&options)
        .iter()
        .map(|c| c.iter().map(|a| a.as_num().unwrap()).collect())
        .collect();
    assert_eq!(all, [[1, 3, 4], [1, 3, 5], [2, 3, 4], [2, 3, 5]]);
    assert_eq!(cartesian_product(&vec![]).len(), 1);
    assert_eq!(cartesian_product(&vec![vec![]]).len(), 0);
}

#[test]
fn combinations_thread_results() {
    let sets = vec![
        plain(vec![Atom::num(1), Atom::num(2)]),
        plain(vec![Atom::num(3), Atom::num(4)]),
    ];
    let all = threaded_combinations(&sets);
    assert_eq!(all.len(), 4);
    assert_eq!(all[1].0[0].as_num(), Ok(1));
    assert_eq!(all[1].0[1].as_num(), Ok(4));
}

#[test]
fn larger_atoms_cost_more() {
    let small = calculate_cost(&Atom::num(1)).unwrap();
    let large = calculate_cost(&Atom::expr(vec![Atom::num(1), Atom::sym("abc")])).unwrap();
    assert!(small > 0 && large > small);
}
