//! The compact set of built-in functions, and programs that come in lines.
use mork_metta::atom::atom_same;
use mork_metta::atom::Atom;
use mork_metta::builtins::call_builtin;
use mork_metta::builtins::compact::register_builtins;
use mork_metta::builtins::compact::sread_parse;
use mork_metta::builtins::loops::next_step;
use mork_metta::builtins::loops::feed;
use mork_metta::builtins::loops::LoopStep;
use mork_metta::builtins::Answer;
use mork_metta::compile::reify::expr_to_atom;
use mork_metta::env::Env;
use mork_metta::eval::lines::complain_open;
use mork_metta::eval::lines::complain_unmatched;
use mork_metta::eval::lines::tell_line;
use mork_metta::eval::lines::LineScan;
use mork_metta::eval::lines::LineStep;
use mork_metta::eval::lines::StreamOut;
use mork_metta::eval::lines::Streaming;
use mork_metta::eval::machine::transition::apply_transition;
use mork_metta::eval::machine::transition::Moved;
use mork_metta::eval::machine::transition::Transition;
use mork_metta::eval::machine::vm::compiler::VMCompiler;
use mork_metta::eval::machine::vm::op::Opcode;
use mork_metta::eval::machine::vm::outcome::VmExit;
use mork_metta::eval::machine::vm::state::VMState;
use mork_metta::eval::runtime::run_vm;
use mork_metta::eval::runtime::Ending;
use mork_metta::expr::Expr;
use mork_metta::func::FnTable;
use mork_metta::parser::parse_forms;
use mork_metta::parser::TopForm;

fn expr(s: &str) -> Expr {
    match parse_forms(s).unwrap().pop().unwrap() {
        TopForm::Definition(e) => e,
        TopForm::Runnable(e) => e,
    }
}

fn atom(s: &str) -> Atom {
    expr_to_atom(&expr(s))
}

fn answer(table: &mut FnTable, name: &str, args: Vec<Atom>) -> Vec<String> {
    let b = table.get(name, args.len() as u8).unwrap();
    let mut list = match call_builtin(b, name, &args, table) {
        Answer::Values(vs) => return vs.iter().map(|a| a.to_sexpr_string()).collect(),
        Answer::Fail(m) => return vec![format!("error: {}", m)],
        Answer::Report(l, v) => return vec![l, v.to_sexpr_string()],
        Answer::Host(_, n, _) => return vec![format!("host {}", n)],
        Answer::Loop(l) => l,
    };
    loop {
        match next_step(&list) {
            LoopStep::End(a) => return vec![a.to_sexpr_string()],
            LoopStep::Run(e) => return vec![format!("run {}", e.to_text())],
            LoopStep::Call(b, n, xs) => {
                let value = match call_builtin(b, &n, &xs, table) {
                    Answer::Values(mut vs) if vs.len() > 0 => Some(vs.remove(0)),
                    _ => None,
                };
                if let Err(m) = feed(&mut list, value) {
                    return vec![format!("error: {}", m)];
                }
            }
        }
    }
}

fn apply(name: &str, args: &[&str]) -> Vec<String> {
    let mut t = FnTable::new();
    register_builtins(&mut t);
    answer(&mut t, name, args.iter().map(|a| atom(a)).collect())
}

fn read(s: &str) -> String {
    match sread_parse(s) {
        Ok(a) => a.to_sexpr_string(),
        Err(m) => format!("error: {}", m),
    }
}

#[test]
fn integers_stay_exact_and_other_numbers_are_left_to_the_host() {
    assert_eq!(apply("+", &["1", "2"]), ["3"]);
    assert_eq!(apply("-", &["1", "2"]), ["-1"]);
    assert_eq!(apply("*", &["6", "7"]), ["42"]);
    assert_eq!(apply("/", &["7", "2"]), ["3"]);
    assert_eq!(apply("/", &["-7", "2"]), ["-3"]);
    assert_eq!(apply("/", &["7", "-2"]), ["-3"]);
    assert_eq!(apply("/", &["-7", "-2"]), ["3"]);
    assert_eq!(apply("%", &["-7", "2"]), ["-1"]);
    assert_eq!(apply("/", &["7", "0"]), ["error: /: division by zero"]);
    assert_eq!(apply("%", &["7", "0"]), ["error: %: division by zero"]);
    assert_eq!(apply("+", &["1.5", "2"]), ["host +"]);
    assert_eq!(apply("sqrt-math", &["4"]), ["host sqrt-math"]);
    assert_eq!(
        apply("/", &["-170141183460469231731687303715884105728", "1"]),
        ["-170141183460469231731687303715884105728"]
    );
    assert_eq!(apply("/", &["-170141183460469231731687303715884105728", "-1"]), ["host /"]);
}

#[test]
fn comparisons_of_the_compact_set() {
    assert_eq!(apply("<", &["1", "2"]), ["true"]);
    assert_eq!(apply(">", &["1", "2"]), ["false"]);
    assert_eq!(apply("<=", &["2", "2"]), ["true"]);
    assert_eq!(apply(">=", &["1", "2"]), ["false"]);
    assert_eq!(apply("<", &["9007199254740993", "2"]), ["host <"]);
    assert_eq!(apply("!=", &["a", "b"]), ["true"]);
    assert_eq!(apply("=?", &["(a)", "(a)"]), ["true"]);
}

#[test]
fn sets_have_no_duplicates() {
    assert_eq!(apply("union-atom", &["(a b a)", "(b c)"]), ["(a b c)"]);
    assert_eq!(apply("intersection-atom", &["(a b a c)", "(c a)"]), ["(a c)"]);
    assert_eq!(apply("subtraction-atom", &["(a b a c)", "(c)"]), ["(a b a)"]);
    assert_eq!(apply("unique-atom", &["(a b a)"]), ["(a b)"]);
}

#[test]
fn errors_of_the_compact_set() {
    assert_eq!(apply("test", &["a", "a"]), ["ok"]);
    assert_eq!(apply("test", &["a", "b"]), ["error: test failed: expected a, got b"]);
    assert_eq!(apply("car-atom", &["()"]), ["error: car-atom: empty list"]);
    assert_eq!(apply("cdr-atom", &["a"]), ["error: cdr-atom: expected list, got a"]);
    assert_eq!(apply("decons-atom", &["()"]), ["error: decons-atom: empty list"]);
    assert_eq!(apply("decons", &["(a b)"]), ["(a (b))"]);
    assert_eq!(apply("repr", &["(f 1)"]), ["(f 1)"]);
}

#[test]
fn loops_of_the_compact_set() {
    assert_eq!(apply("foldl", &["+", "0", "(1 2 3)"]), ["6"]);
    assert_eq!(apply("foldl-atom", &["-", "10", "(1 2)"]), ["7"]);
    assert_eq!(apply("foldl-atom", &["+", "5", "()"]), ["5"]);
    assert_eq!(apply("foldl-atom", &["f", "0", "(1)"]), ["error: foldl-atom: function f with arity 2 not found"]);
    assert_eq!(
        apply("foldl", &["or", "True", "(True)"]),
        ["error: foldl: only native functions supported as first argument"]
    );
    assert_eq!(
        apply("foldl", &["5", "0", "(1)"]),
        ["error: foldl: first arg must be a symbol (function name)"]
    );
    assert_eq!(apply("maplist", &["length", "((a b) (c))"]), ["(2 1)"]);
    assert_eq!(apply("filter-atom", &["is-expr", "(a (b) c (d))"]), ["((b) (d))"]);
    assert_eq!(apply("filter-atom", &["length", "((a) b)"]), ["()"]);
}

#[test]
fn the_compact_reader() {
    assert_eq!(read("  foo "), "foo");
    assert_eq!(read("42"), "42");
    assert_eq!(read("-170141183460469231731687303715884105728"), "-170141183460469231731687303715884105728");
    assert!(matches!(sread_parse("+7"), Ok(Atom::Num(_))));
    assert!(matches!(sread_parse("170141183460469231731687303715884105728"), Ok(Atom::Sym(_))));
    assert!(matches!(sread_parse("-"), Ok(Atom::Sym(_))));
    assert!(matches!(sread_parse("1.5"), Ok(Atom::Sym(_))));
    assert_eq!(read("( )"), "()");
    assert_eq!(read("(f (g  1)\t(h x))"), "(f (g 1) (h x))");
    assert_eq!(read("   "), "error: sread: empty input");
    assert_eq!(read("\u{3000}x\u{a0}"), "x");
    assert_eq!(read("(a"), "(a");
    assert_eq!(apply("sread", &["(f 1)"]), ["(f 1)"]);
}

#[test]
fn the_compact_set_is_registered() {
    let mut t = FnTable::new();
    register_builtins(&mut t);
    assert!(t.is_pure_fn("sread", 1));
    assert!(t.is_pure_fn("implies", 2));
    assert!(!t.is_pure_fn("foldl", 3));
    assert!(!t.is_pure_fn("get-atoms", 1));
    assert!(t.get("random-int", 2).is_none());
    assert_eq!(t.clauses_of("not", 1).unwrap().len(), 2);
    assert_eq!(t.clauses_of("xor", 2).unwrap().len(), 4);
    assert!(t.space_atoms("&self").is_empty());
    assert_eq!(answer(&mut t, "change-state!", vec![atom("k"), atom("1")]), ["true"]);
    assert_eq!(answer(&mut t, "get-state", vec![atom("k")]), ["1"]);
}

#[test]
fn forms_come_out_of_lines() {
    let mut scan = LineScan::new();
    let line = |s: &str| -> Vec<char> { s.chars().collect() };
    assert!(matches!(scan.next_form(&line("text !(a"), 0), LineStep::End));
    assert!(scan.is_open());
    let second = line("b) (c) ; (d)");
    match scan.next_form(&second, 0) {
        LineStep::Form(s, runnable, next) => {
            assert_eq!((s.as_str(), runnable, next), ("(ab)", true, 2));
            match scan.next_form(&second, next) {
                LineStep::Form(s, runnable, next) => {
                    assert_eq!((s.as_str(), runnable, next), ("(c)", false, 6));
                    assert!(matches!(scan.next_form(&second, next), LineStep::End));
                }
                _ => panic!("no form"),
            }
        }
        _ => panic!("no form"),
    }
    assert!(!scan.is_open());
    assert!(matches!(scan.next_form(&line(" )"), 0), LineStep::Unmatched));
    assert_eq!(complain_unmatched("p", 3), "unmatched ')' in 'p' at line 3");
    assert_eq!(complain_open("p"), "unclosed '(' in 'p'");
    assert_eq!(tell_line("bad", "p", 2), "bad (in 'p' near line 2)");
}

#[test]
fn lines_may_be_read_in_parts() {
    let line: Vec<char> = "!(a b)".chars().collect();
    let mut whole = LineScan::new();
    let mut parts = LineScan::new();
    assert!(matches!(parts.next_form(&line[..3].to_vec(), 0), LineStep::End));
    match (whole.next_form(&line, 0), parts.next_form(&line[3..].to_vec(), 0)) {
        (LineStep::Form(a, x, p), LineStep::Form(b, y, q)) => {
            assert_eq!((a, x, p), (b, y, q + 3));
        }
        _ => panic!("no form"),
    }
}

#[test]
fn chains_are_paid_and_output_is_silent() {
    let mut t = FnTable::new();
    let (moved, left) = apply_transition(Transition::Chain(3), &mut t, Some(10));
    assert!(matches!(moved, Moved::Silent));
    assert_eq!(left, Some(7));
    let (moved, left) = apply_transition(Transition::Chain(10), &mut t, Some(10));
    assert!(matches!(moved, Moved::Fail(m) if m == "Budget exhausted"));
    assert_eq!(left, Some(10));
    let (moved, left) = apply_transition(Transition::Output, &mut t, Some(1));
    assert!(matches!(moved, Moved::Silent));
    assert_eq!(left, Some(1));
}

#[test]
fn refused_code_leaves_the_instructions() {
    let mut c = VMCompiler::new(&vec![], None);
    let mut code: Vec<Opcode> = Vec::new();
    assert!(c.compile(&expr("(f $x $y $x)"), &mut code, false).is_ok());
    assert_eq!(c.free_vars, ["$x", "$y"]);
    let n = code.len();
    assert!(c.compile(&expr("(let* $z (f $w))"), &mut code, false).is_err());
    assert_eq!(code.len(), n);
    assert_eq!(c.free_vars[..2], ["$x", "$y"]);
    assert!(c.free_vars[2..].iter().all(|v| v == "$z" || v == "$w"));
    assert!(c.locals.is_empty() && c.fn_name.is_none() && c.arity == 0);
}

#[test]
fn machines_give_results_budget_and_exit() {
    let mut t = FnTable::new();
    mork_metta::builtins::register_builtins(&mut t);
    let mut c = VMCompiler::new(&vec![], None);
    let mut code: Vec<Opcode> = Vec::new();
    c.compile(&expr("(+ 1 2)"), &mut code, false).unwrap();
    let env = Env::new().extend("$k", Atom::num(5));
    let state = VMState::new(code, c.free_vars, Some(1000), &env, &mut t);
    match run_vm(state, &mut t, 1000).0 {
        Ending::Done(results, left, exit) => {
            assert_eq!(results.len(), 1);
            assert_eq!(results[0].0.to_sexpr_string(), "3");
            assert!(left.is_some());
            assert!(matches!(exit, VmExit::Normal));
        }
        _ => panic!("not done"),
    }
}

#[test]
fn fresh_numbers_grow() {
    let mut t = FnTable::new();
    let first = t.next_fresh_id();
    let second = t.next_fresh_id();
    let third = t.next_fresh_id();
    assert_eq!(first, 100000);
    assert!(first < second && second < third);
    let mut u = FnTable::numbered_from(200000);
    assert_eq!(u.next_fresh_id(), 200000);
    assert!(u.next_fresh_id() > third);
}

#[test]
fn written_values_are_read_back() {
    for text in ["(f -12 (g \"a \\\"b\\\\\") () $x)", "word", "\"line\"", "(())", "7"] {
        let a = atom(text);
        let written = a.to_sexpr_string();
        assert_eq!(written, text);
        assert!(mork_metta::atom::atom_same(&atom(&written), &a));
    }
}

#[test]
fn what_is_written_is_read_back() {
    for s in ["0", "-7", "170141183460469231731687303715884105727", "foo", "$x", "true", "()",
        "(f 1 (g -2 ()) h)", "((a) ((b)) 1_0)"] {
        let a = sread_parse(s).unwrap();
        assert_eq!(a.to_sexpr_string(), s);
        assert!(atom_same(&a, &sread_parse(&a.to_sexpr_string()).unwrap()));
        assert!(atom_same(&a, &sread_parse(&format!(" \t{}\n\u{3000}", s)).unwrap()));
    }
    let truth = Atom::sym("True");
    assert!(atom_same(&truth, &sread_parse(&truth.to_sexpr_string()).unwrap()));
    assert_eq!(read("\t \n"), "error: sread: empty input");
    assert_eq!(read(""), "error: sread: empty input");
}

/// Run lines, evaluating each expression to the given values, and tell what was
/// evaluated and how the program ended.
fn stream(lines: &[&str], values: &[Atom]) -> (Vec<String>, Result<Option<String>, String>) {
    let mut t = FnTable::new();
    let mut st = Streaming::new();
    let mut run = Vec::new();
    for (i, line) in lines.iter().enumerate() {
        st.supply_line(line, i + 1);
        loop {
            match st.step("p", &mut t) {
                StreamOut::Next => {}
                StreamOut::Line => break,
                StreamOut::Run(e) => {
                    run.push(e.to_text());
                    st.supply(&values.to_vec());
                }
                StreamOut::Fail(m) => return (run, Err(m)),
            }
        }
    }
    (run, st.end("p").map(|v| v.map(|a| a.to_sexpr_string())))
}

#[test]
fn streamed_programs_give_the_value_of_their_last_form() {
    let two = [Atom::num(1), Atom::num(2)];
    let (run, end) = stream(&["(= (f) 1) !(f)", "; note", "!(g", " 2)"], &two);
    assert_eq!(run, ["(f)", "(g 2)"]);
    assert_eq!(end, Ok(Some("1".to_string())));
    assert_eq!(stream(&["!(f)", "(= (f) 1)"], &two), (vec!["(f)".to_string()], Ok(None)));
    assert_eq!(stream(&["!(f)"], &[]).1, Ok(None));
    assert_eq!(stream(&[], &two), (vec![], Ok(None)));
}

#[test]
fn streamed_programs_tell_where_they_fail() {
    assert_eq!(stream(&["(a)", ")"], &[]).1, Err("unmatched ')' in 'p' at line 2".to_string()));
    assert_eq!(stream(&["(a)", "(b"], &[]).1, Err("unclosed '(' in 'p'".to_string()));
    let mut st = Streaming::new();
    st.supply_line("!(f)", 7);
    assert_eq!(st.refuse("p", "no"), "no (in 'p' near line 7)");
}
