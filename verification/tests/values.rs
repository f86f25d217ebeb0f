//! Numbers, atoms, texts and environments.
use mork_metta::atom::atom_same;
use mork_metta::atom::Atom;
use mork_metta::compile::reify::atom_to_expr;
use mork_metta::compile::reify::expr_to_atom;
use mork_metta::env::Env;
use mork_metta::eval::shared::env::bind;
use mork_metta::eval::shared::env::prepend_chain;
use mork_metta::eval::shared::fresh::contains_fresh_vars;
use mork_metta::eval::shared::fresh::is_generated_var_name;
use mork_metta::eval::shared::fresh::make_fresh_name;
use mork_metta::eval::shared::fresh::rename_apart_unbound_vars;
use mork_metta::eval::shared::pattern::try_match_one;
use mork_metta::eval::shared::pattern::Matching;
use mork_metta::eval::shared::subst::fill_expr_vars;
use mork_metta::eval::shared::subst::follow_expr_vars;
use mork_metta::eval::shared::subst::subst_and_atomize;
use mork_metta::eval::shared::subst::subst_atom;
use mork_metta::eval::shared::subst::subst_expr_vars;
use mork_metta::expr::expr_same;
use mork_metta::expr::Expr;
use mork_metta::numeric::numeric_add;
use mork_metta::numeric::numeric_below;
use mork_metta::numeric::numeric_mul;
use mork_metta::numeric::numeric_rem;
use mork_metta::numeric::numeric_sub;
use mork_metta::numeric::Decimal;
use mork_metta::numeric::Integer;
use mork_metta::numeric::Numeric;
use mork_metta::parser::parse_forms;
use mork_metta::parser::TopForm;
use mork_metta::text::comes_before;
use mork_metta::text::i64_text;
use mork_metta::text::is_var;
use mork_metta::text::joined3;
use mork_metta::text::quote_text;
use mork_metta::text::to_lower;
use mork_metta::text::u64_text;
use std::sync::Arc;

fn whole(s: &str) -> Numeric {
    Numeric::Int(Integer::read(s).unwrap())
}

fn dec(s: &str) -> Numeric {
    Numeric::Dec(Decimal::read(s).unwrap())
}

fn expr(s: &str) -> Expr {
    match parse_forms(s).unwrap().pop().unwrap() {
        TopForm::Definition(e) => e,
        TopForm::Runnable(e) => e,
    }
}

#[test]
fn integers_are_exact_beyond_machine_words() {
    let big = whole("170141183460469231731687303715884105728");
    assert_eq!(
        numeric_add(&big, &whole("1")).to_text(),
        "170141183460469231731687303715884105729"
    );
    assert_eq!(
        numeric_sub(&whole("0"), &big).to_text(),
        "-170141183460469231731687303715884105728"
    );
    assert_eq!(
        numeric_mul(&whole("99999999999999999999"), &whole("99999999999999999999")).to_text(),
        "9999999999999999999800000000000000000001"
    );
}

#[test]
fn remainders_have_the_sign_of_the_dividend() {
    assert_eq!(numeric_rem(&whole("7"), &whole("3")).unwrap().to_text(), "1");
    assert_eq!(numeric_rem(&whole("-7"), &whole("3")).unwrap().to_text(), "-1");
    assert_eq!(numeric_rem(&whole("7"), &whole("-3")).unwrap().to_text(), "1");
    assert!(numeric_rem(&whole("7"), &whole("0")).is_err());
}

#[test]
fn decimals_are_computed_in_tens() {
    assert_eq!(numeric_add(&dec("0.1"), &dec("0.2")).to_text(), "0.3");
    assert_eq!(numeric_add(&dec("1.5"), &whole("2")).to_text(), "3.5");
    assert_eq!(numeric_sub(&whole("2"), &dec("0.25")).to_text(), "1.75");
    assert_eq!(numeric_mul(&dec("1.5"), &dec("0.5")).to_text(), "0.75");
}

#[test]
fn numbers_are_ordered_by_value() {
    assert!(numeric_below(&whole("-3"), &whole("2")));
    assert!(!numeric_below(&whole("2"), &whole("2")));
    assert!(numeric_below(&dec("1.25"), &dec("1.5")));
    assert!(numeric_below(&whole("1"), &dec("1.5")));
    assert!(!numeric_below(&dec("1.5"), &whole("1")));
}

#[test]
fn integers_round_trip_through_text() {
    assert_eq!(Integer::from_i128(-42).to_text(), "-42");
    assert_eq!(Integer::read("-42").unwrap().to_i128(), Some(-42));
    assert_eq!(Integer::read("007").unwrap().to_text(), "7");
    assert!(Integer::read("4x2").is_none());
    assert_eq!(
        Integer::read("170141183460469231731687303715884105728").unwrap().to_i128(),
        None
    );
    assert!(Decimal::read("nothing").is_err());
}

#[test]
fn truth_of_atoms() {
    assert!(!Atom::num(0).is_truthy());
    assert!(Atom::num(-1).is_truthy());
    assert!(Atom::sym("false").is_truthy());
    assert!(!Atom::sym("false").affirms());
    assert!(!Atom::sym("False").affirms());
    assert!(!Atom::num(0).affirms());
    assert!(Atom::sym("true").affirms());
    assert!(!Atom::sym("").is_truthy());
    assert!(Atom::sym("x").is_truthy());
    assert!(Atom::expr(vec![]).is_truthy());
    assert!(Atom::str_val("").is_truthy());
}

#[test]
fn atoms_are_written_as_expressions() {
    let a = Atom::expr(vec![
        Atom::sym("f"),
        Atom::num(1),
        Atom::expr(vec![Atom::sym("$x"), Atom::str_val("s")]),
    ]);
    assert_eq!(a.to_sexpr_string(), "(f 1 ($x \"s\"))");
    assert_eq!(Atom::decimal("2.50").unwrap().to_sexpr_string(), "2.5");
    assert!(Atom::decimal("x").is_err());
}

#[test]
fn atoms_give_their_parts() {
    assert_eq!(Atom::num(7).as_num(), Ok(7));
    assert!(Atom::sym("x").as_num().is_err());
    assert_eq!(Atom::sym("x").as_sym(), Ok("x"));
    assert!(Atom::num(1).as_sym().is_err());
    assert_eq!(Atom::str_val("t").as_str_val(), Ok("t"));
    assert!(Atom::sym("t").as_str_val().is_err());
    assert_eq!(Atom::expr(vec![Atom::num(1)]).as_expr().unwrap().len(), 1);
    assert!(Atom::num(1).as_expr().is_err());
}

#[test]
fn atoms_and_expressions_round_trip() {
    let e = expr("(f 1 (g \"s\" $x) 2.5)");
    let a = expr_to_atom(&e);
    assert!(expr_same(&atom_to_expr(&a).unwrap(), &e));
    assert!(atom_same(&expr_to_atom(&atom_to_expr(&a).unwrap()), &a));
}

#[test]
fn texts_are_joined_quoted_and_ordered() {
    assert_eq!(joined3("a", "b", "c"), "abc");
    assert_eq!(quote_text("a\"b\\c"), "\"a\\\"b\\\\c\"");
    assert_eq!(to_lower("TruE"), "true");
    assert!(is_var("$x"));
    assert!(!is_var("x"));
    assert_eq!(u64_text(u64::MAX), "18446744073709551615");
    assert_eq!(i64_text(i64::MIN), "-9223372036854775808");
    assert!(comes_before("ab", "b"));
    assert!(comes_before("a", "ab"));
    assert!(!comes_before("b", "b"));
}

#[test]
fn later_bindings_hide_earlier_ones() {
    let e = Env::new().extend("$x", Atom::num(1)).extend("$y", Atom::num(2));
    let f = e.extend("$x", Atom::num(3));
    assert_eq!(f.get("$x").unwrap().as_num(), Ok(3));
    assert_eq!(f.get("$y").unwrap().as_num(), Ok(2));
    assert_eq!(e.get("$x").unwrap().as_num(), Ok(1));
    assert!(f.get("$z").is_none());
    assert!(Env::new().is_empty_env());
}

#[test]
fn linked_environments_look_in_front_first() {
    let base = bind(&Env::new(), "$x", Atom::num(1));
    let base = bind(&base, "$y", Atom::num(2));
    let front = bind(&Env::new(), "$x", Atom::num(9));
    let both = prepend_chain(front, &base);
    assert_eq!(both.get("$x").unwrap().as_num(), Ok(9));
    assert_eq!(both.get("$y").unwrap().as_num(), Ok(2));
}

#[test]
fn cleaning_keeps_new_bindings_in_front_of_the_boundary() {
    let outer = Env::new().extend("$x", Atom::num(1));
    let inner = outer.extend("$y", Atom::num(2)).extend("$z", Atom::num(3));
    let kept = inner.clean_and_merge(&outer, &vec!["$z".to_string()]);
    assert_eq!(kept.get("$x").unwrap().as_num(), Ok(1));
    assert_eq!(kept.get("$y").unwrap().as_num(), Ok(2));
    assert!(kept.get("$z").is_none());
}

#[test]
fn substitution_follows_chains_of_variables() {
    let env = Env::new().extend("$y", Atom::num(5)).extend("$x", Atom::sym("$y"));
    let a = Atom::expr(vec![Atom::sym("f"), Atom::sym("$x"), Atom::sym("$w")]);
    assert_eq!(subst_atom(&a, &env).to_sexpr_string(), "(f 5 $w)");
    let ground = Atom::expr(vec![Atom::sym("f"), Atom::num(1)]);
    assert!(atom_same(&subst_atom(&ground, &env), &ground));
    assert!(atom_same(&subst_atom(&a, &Env::new()), &a));
}

#[test]
fn atomizing_substitutes_once() {
    let env = Env::new().extend("$x", Atom::num(5));
    assert_eq!(
        subst_and_atomize(&expr("(f $x (g $y))"), &env).to_sexpr_string(),
        "(f 5 (g $y))"
    );
}

#[test]
fn fresh_names_are_recognised_and_differ() {
    let a = make_fresh_name("$x", 1);
    let b = make_fresh_name("$x", 2);
    assert!(is_generated_var_name(&a));
    assert!(!is_generated_var_name("$x"));
    assert!(a != b);
    assert!(contains_fresh_vars(&Atom::expr(vec![Atom::sym(&a)])));
    assert!(!contains_fresh_vars(&Atom::expr(vec![Atom::sym("$x")])));
}

#[test]
fn renaming_leaves_the_variables_of_patterns() {
    let mut next: u64 = 7;
    let body = expr("(f $x $y $y)");
    let out = rename_apart_unbound_vars(&body, &vec![expr("$x")], &mut next);
    let fresh = make_fresh_name("$y", 7);
    assert_eq!(out.to_text(), format!("(f $x {} {})", fresh, fresh));
    assert_eq!(next, 8);
}

fn parts(e: &Expr) -> Vec<Expr> {
    match e {
        Expr::List(items) => items.iter().cloned().collect(),
        _ => panic!("no list"),
    }
}

#[test]
fn renaming_keeps_scopes_apart() {
    let mut next: u64 = 1;
    let body = expr("(g $y (let $y 1 (h $y)) $y)");
    let out = parts(&rename_apart_unbound_vars(&body, &vec![], &mut next));
    let inner = parts(&out[2]);
    let use_in_body = parts(&inner[3])[1].to_text();
    assert_eq!(out[1].to_text(), make_fresh_name("$y", 1));
    assert_eq!(inner[1].to_text(), make_fresh_name("$y", 2));
    assert_eq!(use_in_body, make_fresh_name("$y", 2));
    assert_eq!(out[3].to_text(), make_fresh_name("$y", 1));
    assert_eq!(next, 3);
}

#[test]
fn later_pairs_take_priority() {
    let pairs = vec![
        ("$x".to_string(), Arc::new(Atom::num(1))),
        ("$y".to_string(), Arc::new(Atom::num(2))),
        ("$x".to_string(), Arc::new(Atom::num(3))),
    ];
    let env = Env::new().extend("$y", Atom::num(9)).extend_all(&pairs);
    assert!(atom_same(&env.get("$x").unwrap(), &Atom::num(3)));
    assert!(atom_same(&env.get("$y").unwrap(), &Atom::num(2)));
}

#[test]
fn variables_bound_to_variables_are_kept() {
    let env = Env::new().extend("$x", Atom::sym("$z")).extend("$y", Atom::num(7));
    assert_eq!(subst_expr_vars(&expr("(f $x $y $w)"), &env).to_text(), "(f $x 7 $w)");
}

#[test]
fn scales_that_are_too_large_are_refused() {
    assert_eq!(Decimal::read("1.5e3").unwrap().to_text(), "1500");
    assert_eq!(Decimal::read("15e-1").unwrap().to_text(), "1.5");
    assert_eq!(Decimal::read("1.5e-9223372036854775808").err().unwrap(), "scale out of range");
    assert_eq!(Decimal::read("10e9223372036854775807").err().unwrap(), "scale out of range");
    assert_eq!(Decimal::read("10e+9223372036854775807").err().unwrap(), "scale out of range");
    assert_ne!(Decimal::read("1e").err().unwrap(), "scale out of range");
    assert_ne!(Decimal::read("1e99999999999x").err().unwrap(), "scale out of range");
    assert_eq!(Decimal::read("1e-0000000000000001").unwrap().to_text(), "0.1");
    assert!(Atom::decimal("1e99999999999").is_err());
}

#[test]
fn matches_are_instances_of_their_patterns() {
    let p = expr("(f $x (g $y $x) 3)");
    let a = expr_to_atom(&expr("(f 1 (g \"s\" 1) 3)"));
    match try_match_one(&p, &a, &Env::new(), &vec![]) {
        Matching::Yes(e) => {
            assert!(atom_same(&subst_and_atomize(&p, &e), &a));
            assert!(e.get("$z").is_none());
        }
        _ => panic!("no match"),
    }
    let b = expr_to_atom(&expr("(f 1 (g 2 5) 3)"));
    assert!(matches!(try_match_one(&p, &b, &Env::new(), &vec![]), Matching::No));
    let bound = Env::new().extend("$y", Atom::num(8));
    assert!(matches!(try_match_one(&p, &a, &bound, &vec![]), Matching::No));
}

#[test]
fn chains_of_variables_are_followed() {
    let env = Env::new()
        .extend("$ret", Atom::sym("$x"))
        .extend("$x", Atom::sym("$y"))
        .extend("$y", Atom::num(5))
        .extend("$p", Atom::sym("$q"));
    assert_eq!(follow_expr_vars(&expr("(f $ret $p $w)"), &env).to_text(), "(f 5 $q $w)");
    assert_eq!(subst_expr_vars(&expr("(f $ret $y)"), &env).to_text(), "(f $ret 5)");
}

#[test]
fn circles_of_variables_stop_at_a_variable() {
    let env = Env::new().extend("$x", Atom::sym("$y")).extend("$y", Atom::sym("$x"));
    let out = follow_expr_vars(&expr("(f $x)"), &env).to_text();
    assert!(out == "(f $x)" || out == "(f $y)");
}

#[test]
fn variables_are_filled_in_once() {
    let env = Env::new()
        .extend("$a", Atom::sym("$1"))
        .extend("$1", Atom::num(5))
        .extend("$b", Atom::expr(vec![Atom::sym("g"), Atom::sym("$a")]));
    assert_eq!(fill_expr_vars(&expr("(p $a $b $w)"), &env).to_text(), "(p $1 (g $a) $w)");
}

#[test]
fn integers_may_hold_underscores() {
    let read = |s: &str| Integer::read(s).map(|n| n.to_text());
    assert_eq!(read("1_000"), Some("1000".to_string()));
    assert_eq!(read("_"), Some("0".to_string()));
    assert_eq!(read("+5"), Some("5".to_string()));
    assert_eq!(read("-0"), Some("0".to_string()));
    assert_eq!(read("-_7_"), Some("-7".to_string()));
    assert_eq!(read(""), None);
    assert_eq!(read("-"), None);
    assert_eq!(read("+-5"), None);
    assert_eq!(read(" 5"), None);
    assert_eq!(
        read("-340282366920938463463374607431768211456"),
        Some("-340282366920938463463374607431768211456".to_string())
    );
}
