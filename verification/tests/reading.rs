//! Text and files.
use mork_metta::atom::Atom;
use mork_metta::builtins::io::parse_single_expr;
use mork_metta::eval::io::begin_load;
use mork_metta::eval::io::eval_readln;
use mork_metta::eval::io::is_data_form;
use mork_metta::eval::io::load_refuse;
use mork_metta::eval::io::load_step;
use mork_metta::eval::io::load_supply;
use mork_metta::eval::io::locate;
use mork_metta::eval::io::missing_import;
use mork_metta::eval::io::parse_data_forms;
use mork_metta::eval::io::pick_forms;
use mork_metta::eval::io::scan_forms;
use mork_metta::eval::io::LoadOut;
use mork_metta::func::FnTable;
use mork_metta::parser::parse_forms;
use mork_metta::parser::TopForm;

fn shown(src: &str) -> Vec<String> {
    parse_forms(src)
        .unwrap()
        .iter()
        .map(|f| match f {
            TopForm::Definition(e) => e.to_text(),
            TopForm::Runnable(e) => format!("!{}", e.to_text()),
        })
        .collect()
}

#[test]
fn forms_are_definitions_or_marked() {
    assert_eq!(
        shown("; note\n(= (f $x) 1) !(f 2) (a \"b c\" -3 4.5)"),
        ["(= (f $x) 1)", "!(f 2)", "(a \"b c\" -3 4.5)"]
    );
}

#[test]
fn unbalanced_text_is_refused() {
    assert!(parse_forms("(a (b)").is_err());
    assert!(parse_forms("a)").is_err());
}

#[test]
fn single_values_are_read() {
    assert_eq!(parse_single_expr("(a 1)").unwrap().to_sexpr_string(), "(a 1)");
    assert_eq!(parse_single_expr("17").unwrap().as_num(), Ok(17));
}

#[test]
fn scanned_forms_stand_in_order() {
    let src = b"(a b)\n; (hidden)\n!(f \")\" 1)\n  (c (d))";
    let spans = scan_forms(src, "x").unwrap();
    assert_eq!(spans.len(), 3);
    let texts: Vec<&[u8]> = spans.iter().map(|s| &src[s.start..s.end]).collect();
    assert_eq!(texts[0], b"(a b)");
    assert_eq!(texts[1], b"(f \")\" 1)");
    assert_eq!(texts[2], b"(c (d))");
    assert!(!spans[0].is_bang && spans[1].is_bang && !spans[2].is_bang);
    assert_eq!(spans[0].start_line, 1);
    assert_eq!(spans[1].start_line, 3);
    assert_eq!(spans[2].start_line, 4);
    assert!(spans[0].end <= spans[1].start && spans[1].end <= spans[2].start);
}

#[test]
fn scanning_refuses_open_forms_and_loose_text() {
    assert!(scan_forms(b"(a (b)", "x").is_err());
    assert!(scan_forms(b"(a) b", "x").is_err());
    assert_eq!(scan_forms(b"  ; only a note", "x").unwrap().len(), 0);
}

#[test]
fn picking_parts_data_from_the_rest() {
    let src = b"(a b) (= (f) 1) !(f) (c d)";
    let spans = scan_forms(src, "x").unwrap();
    let data = pick_forms(src, &spans, true);
    let rest = pick_forms(src, &spans, false);
    assert_eq!(data.len(), 2);
    assert_eq!(rest.len(), 2);
    assert!(is_data_form(src, data[0].start));
    assert!(!is_data_form(src, rest[0].start));
    let atoms = parse_data_forms(src, &data, "x").unwrap();
    assert_eq!(atoms[0].to_sexpr_string(), "(a b)");
    assert_eq!(atoms[1].to_sexpr_string(), "(c d)");
}

#[test]
fn data_that_is_no_text_is_refused() {
    let src = b"(a \xff)";
    let spans = scan_forms(src, "x").unwrap();
    let data = pick_forms(src, &spans, true);
    assert!(parse_data_forms(src, &data, "x").is_err());
}

#[test]
fn loading_inserts_data_and_asks_for_values() {
    let src = b"(fact one) (= (f $x) $x) !(f 3) (fact two)";
    let mut table = FnTable::new();
    let space = Atom::sym("&self");
    let mut load = begin_load(src, "x", &space, &mut table).unwrap();
    let mut asked = Vec::new();
    let done = loop {
        match load_step(&mut load, src, "x", &space, &mut table) {
            LoadOut::Next => {}
            LoadOut::Run(e) => {
                asked.push(e.to_text());
                load_supply(&mut load, &vec![Atom::num(3), Atom::num(4)]);
            }
            LoadOut::Done(vs) => break vs,
            LoadOut::Fail(m) => panic!("{}", m),
        }
    };
    assert_eq!(asked, ["(f 3)"]);
    assert_eq!(done.len(), 1);
    assert_eq!(done[0].as_num(), Ok(3));
    let atoms: Vec<String> =
        table.space_atoms("&self").iter().map(|a| a.to_sexpr_string()).collect();
    assert_eq!(atoms, ["(fact one)", "(fact two)", "(= (f $x) $x)"]);
    assert_eq!(table.clauses_of("f", 1).unwrap().len(), 1);
}

#[test]
fn errors_name_the_file_and_line() {
    let src = b"(a)\n!(f)";
    let mut table = FnTable::new();
    let space = Atom::sym("&self");
    let mut load = begin_load(src, "lib.metta", &space, &mut table).unwrap();
    let message = loop {
        match load_step(&mut load, src, "lib.metta", &space, &mut table) {
            LoadOut::Run(_) => break load_refuse(&load, "lib.metta", "broken"),
            LoadOut::Next => {}
            LoadOut::Done(_) => panic!("done"),
            LoadOut::Fail(m) => panic!("{}", m),
        }
    };
    assert_eq!(message, locate("broken", "lib.metta", 2));
    assert!(message.contains("lib.metta") && message.contains('2'));
}

#[test]
fn typed_lines_are_read() {
    assert_eq!(eval_readln("5\n").unwrap().as_num(), Ok(5));
    assert_eq!(eval_readln("a b\n").unwrap().to_sexpr_string(), "(a b)");
    assert_eq!(eval_readln("\n").unwrap().to_sexpr_string(), "()");
    assert!(eval_readln("(a\n").is_err());
}

#[test]
fn missing_files_are_named() {
    let m = missing_import("lib", "dir");
    assert!(m.contains("lib") && m.contains("dir"));
}

#[test]
fn data_may_hold_any_letter() {
    let src = "(name \u{e9}t\u{e9})".as_bytes();
    let spans = scan_forms(src, "x").unwrap();
    let atoms = parse_data_forms(src, &spans, "x").unwrap();
    assert_eq!(atoms[0].to_sexpr_string(), "(name \u{e9}t\u{e9})");
}
