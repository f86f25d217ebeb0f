//! Lists in a tree walk: which form a list is, and lists of data.
use crate::atom::Atom;
use crate::atom::AtomV;
use crate::atom::atoms;
use crate::env::Env;
use crate::env::EnvV;
use crate::eval::machine::vm::outcome::HostCall;
use crate::eval::machine::vm::outcome::HostV;
use crate::eval::walker::OneV;
use crate::eval::walker::OutV;
use crate::eval::walker::Stop;
use crate::eval::walker::WalkV;
use crate::eval::walker::Walked;
use crate::eval::walker::Walker;
use crate::eval::walker::asked;
use crate::eval::walker::calls::call_or_data;
use crate::eval::walker::first_or;
use crate::eval::walker::folds::foldall_walked;
use crate::eval::walker::folds::forall_walked;
use crate::eval::walker::folds::map_walked;
use crate::eval::walker::forms::call_form_walked;
use crate::eval::walker::forms::case_walked;
use crate::eval::walker::forms::chain_walked;
use crate::eval::walker::forms::collapse_walked;
use crate::eval::walker::forms::eval_walked;
use crate::eval::walker::forms::if_walked;
use crate::eval::walker::forms::lambda_walked;
use crate::eval::walker::forms::let_walked;
use crate::eval::walker::forms::progn_walked;
use crate::eval::walker::forms::quote_walked;
use crate::eval::walker::forms::star_walked;
use crate::eval::walker::forms::superpose_walked;
use crate::eval::walker::give_none;
use crate::eval::walker::give_one;
use crate::eval::walker::gives;
use crate::eval::walker::gives_one;
use crate::eval::walker::hosted::plugin_walked;
use crate::eval::walker::hosted::python_walked;
use crate::eval::walker::named_value;
use crate::eval::walker::one_walked;
use crate::eval::walker::queries::add_walked;
use crate::eval::walker::queries::import_walked;
use crate::eval::walker::queries::match_walked;
use crate::eval::walker::queries::println_walked;
use crate::eval::walker::queries::remove_walked;
use crate::eval::walker::value_of_name;
use crate::eval::walker::walked;
use crate::eval::walker::walked_value;
use crate::expr::Expr;
use crate::expr::ExprV;
use crate::expr::exprs;
use crate::expr::group_exprs;
use crate::text::same;
use vstd::prelude::*;
use vstd::string::*;

verus! {

/// The forms that a list can have.
#[derive(Clone, Copy, PartialEq, Eq, Structural)]
pub enum WalkForm {
    /// A conditional.
    If,
    /// A sequence.
    Progn,
    /// A binding.
    Let,
    /// Bindings in sequence.
    LetStar,
    /// Data.
    Quote,
    /// A call.
    Call,
    /// Evaluation of code.
    Eval,
    /// Adding to the space.
    AddAtom,
    /// Removing from the space.
    RemoveAtom,
    /// Searching the space.
    Match,
    /// Loading a file.
    Import,
    /// Reading a line.
    Readln,
    /// Printing.
    Println,
    /// Alternatives.
    Superpose,
    /// Collecting alternatives.
    Collapse,
    /// A pipeline.
    Chain,
    /// A choice by patterns.
    Case,
    /// Folding over alternatives.
    Foldall,
    /// Applying a function to the elements of a list.
    MapAtom,
    /// A closure.
    Lambda,
    /// Checking all alternatives.
    Forall,
    /// No alternative.
    Empty,
    /// Calling Python.
    PyCall,
    /// Loading a plugin.
    ImportRs,
    /// No form: a call or data.
    Other,
}

/// The form that a name stands for.
pub open spec fn walk_form(s: Seq<char>) -> WalkForm {
    if s == "if"@ {
        WalkForm::If
    } else if s == "progn"@ {
        WalkForm::Progn
    } else if s == "let"@ {
        WalkForm::Let
    } else if s == "let*"@ {
        WalkForm::LetStar
    } else if s == "quote"@ {
        WalkForm::Quote
    } else if s == "call"@ || s == "reduce"@ {
        WalkForm::Call
    } else if s == "eval"@ {
        WalkForm::Eval
    } else if s == "add-atom"@ {
        WalkForm::AddAtom
    } else if s == "remove-atom"@ {
        WalkForm::RemoveAtom
    } else if s == "match"@ {
        WalkForm::Match
    } else if s == "import!"@ {
        WalkForm::Import
    } else if s == "readln!"@ {
        WalkForm::Readln
    } else if s == "println!"@ {
        WalkForm::Println
    } else if s == "superpose"@ {
        WalkForm::Superpose
    } else if s == "collapse"@ {
        WalkForm::Collapse
    } else if s == "chain"@ {
        WalkForm::Chain
    } else if s == "case"@ {
        WalkForm::Case
    } else if s == "foldall"@ {
        WalkForm::Foldall
    } else if s == "map-atom"@ {
        WalkForm::MapAtom
    } else if s == "|->"@ {
        WalkForm::Lambda
    } else if s == "forall"@ {
        WalkForm::Forall
    } else if s == "empty"@ {
        WalkForm::Empty
    } else if s == "py-call"@ {
        WalkForm::PyCall
    } else if s == "import-rs!"@ {
        WalkForm::ImportRs
    } else {
        WalkForm::Other
    }
}

/// Find the form that a name stands for.
fn find_walk_form(s: &str) -> (r: WalkForm)
    ensures
        r == walk_form(s@),
{
    if same(s, "if") {
        WalkForm::If
    } else if same(s, "progn") {
        WalkForm::Progn
    } else if same(s, "let") {
        WalkForm::Let
    } else if same(s, "let*") {
        WalkForm::LetStar
    } else if same(s, "quote") {
        WalkForm::Quote
    } else if same(s, "call") || same(s, "reduce") {
        WalkForm::Call
    } else if same(s, "eval") {
        WalkForm::Eval
    } else if same(s, "add-atom") {
        WalkForm::AddAtom
    } else if same(s, "remove-atom") {
        WalkForm::RemoveAtom
    } else if same(s, "match") {
        WalkForm::Match
    } else if same(s, "import!") {
        WalkForm::Import
    } else if same(s, "readln!") {
        WalkForm::Readln
    } else if same(s, "println!") {
        WalkForm::Println
    } else if same(s, "superpose") {
        WalkForm::Superpose
    } else if same(s, "collapse") {
        WalkForm::Collapse
    } else if same(s, "chain") {
        WalkForm::Chain
    } else if same(s, "case") {
        WalkForm::Case
    } else if same(s, "foldall") {
        WalkForm::Foldall
    } else if same(s, "map-atom") {
        WalkForm::MapAtom
    } else if same(s, "|->") {
        WalkForm::Lambda
    } else if same(s, "forall") {
        WalkForm::Forall
    } else if same(s, "empty") {
        WalkForm::Empty
    } else if same(s, "py-call") {
        WalkForm::PyCall
    } else if same(s, "import-rs!") {
        WalkForm::ImportRs
    } else {
        WalkForm::Other
    }
}

/// The form of a list.
pub open spec fn list_form(items: Seq<ExprV>) -> WalkForm {
    if items.len() > 0 && items[0] is Symbol {
        walk_form(items[0]->Symbol_0)
    } else {
        WalkForm::Other
    }
}

/// The values of a list.
pub open spec fn list_walked(items: Seq<ExprV>, env: EnvV, s: WalkV, f: nat) -> OutV
    decreases f, 20nat, 0nat, 0nat,
{
    if items.len() == 0 {
        gives_one(s, AtomV::Expr(Seq::empty()))
    } else {
        match list_form(items) {
            WalkForm::If => if_walked(items, env, s, f),
            WalkForm::Progn => progn_walked(items, env, s, f),
            WalkForm::Let => let_walked(items, env, s, f),
            WalkForm::LetStar => star_walked(items, env, s, f),
            WalkForm::Quote => quote_walked(items, env, s),
            WalkForm::Call => call_form_walked(items, env, s, f),
            WalkForm::Eval => eval_walked(items, env, s, f),
            WalkForm::AddAtom => add_walked(items, env, s, f),
            WalkForm::RemoveAtom => remove_walked(items, env, s, f),
            WalkForm::Match => match_walked(items, env, s, f),
            WalkForm::Import => import_walked(items, env, s, f),
            WalkForm::Readln => asked(HostV::Readln, s),
            WalkForm::Println => println_walked(items, env, s, f),
            WalkForm::Superpose => superpose_walked(items, env, s, f),
            WalkForm::Collapse => collapse_walked(items, env, s, f),
            WalkForm::Chain => chain_walked(items, env, s, f),
            WalkForm::Case => case_walked(items, env, s, f),
            WalkForm::Foldall => foldall_walked(items, env, s, f),
            WalkForm::MapAtom => map_walked(items, env, s, f),
            WalkForm::Lambda => lambda_walked(items, env, s),
            WalkForm::Forall => forall_walked(items, env, s, f),
            WalkForm::Empty => gives(s, Seq::empty()),
            WalkForm::PyCall => python_walked(items, env, s, f),
            WalkForm::ImportRs => plugin_walked(items, env, s),
            WalkForm::Other => call_or_data(items, env, s, f),
        }
    }
}

/// The value of an element of a list of data: its first value.
pub open spec fn item_walked(x: ExprV, env: EnvV, s: WalkV, f: nat) -> OneV
    decreases f, 1nat, 0nat, 0nat,
{
    match x {
        ExprV::Number(n) => (Ok(AtomV::Num(n)), s),
        ExprV::Str(t) => (Ok(AtomV::Str(t)), s),
        ExprV::Symbol(name) => (Ok(named_value(name, env)), s),
        ExprV::List(items) => if items.len() == 0 {
            (Ok(AtomV::Expr(Seq::empty())), s)
        } else {
            first_or(walked(x, env, s, f), "expression produced no results in data list"@)
        },
    }
}

/// The list of the values of elements from a position on, behind those before.
pub open spec fn data_walked(
    items: Seq<ExprV>,
    i: nat,
    before: Seq<AtomV>,
    env: EnvV,
    s: WalkV,
    f: nat,
) -> OutV
    decreases f, 2nat, 0nat, items.len() - i,
{
    if i >= items.len() {
        gives_one(s, AtomV::Expr(before))
    } else {
        let (r, s2) = item_walked(items[i as int], env, s, f);
        match r {
            Err(e) => (Err(e), s2),
            Ok(a) => data_walked(items, i + 1, before.push(a), env, s2, f),
        }
    }
}

impl Walker {
    /// Evaluate a list.
    #[verifier::rlimit(40)]
    pub fn eval_list(&mut self, items: &Vec<Expr>, env: &Env, f: u64) -> (r: Walked)
        ensures
            (walked_value(r), final(self)@) == list_walked(
                exprs(items@),
                env@,
                old(self)@,
                f as nat,
            ),
        decreases f, 20nat, 0nat, 0nat,
    {
        broadcast use group_exprs;

        let ghost xs = exprs(items@);
        assert(xs.len() == items@.len());
        if items.len() == 0 {
            let none: Vec<Atom> = Vec::new();
            assert(atoms(none@) =~= Seq::<AtomV>::empty());
            return give_one(Atom::expr(none));
        }
        assert(xs[0] == items@[0]@);
        let form: WalkForm = match &items[0] {
            Expr::Symbol(s) => find_walk_form(s.as_str()),
            _ => WalkForm::Other,
        };
        assert(form == list_form(xs));
        match form {
            WalkForm::If => self.eval_if(items, env, f),
            WalkForm::Progn => self.eval_progn(items, env, f),
            WalkForm::Let => self.eval_let(items, env, f),
            WalkForm::LetStar => self.eval_let_star(items, env, f),
            WalkForm::Quote => self.eval_quote(items, env),
            WalkForm::Call => self.eval_call(items, env, f),
            WalkForm::Eval => self.eval_eval(items, env, f),
            WalkForm::AddAtom => self.eval_add_atom(items, env, f),
            WalkForm::RemoveAtom => self.eval_remove_atom(items, env, f),
            WalkForm::Match => self.eval_match(items, env, f),
            WalkForm::Import => self.eval_import(items, env, f),
            WalkForm::Readln => self.ask(HostCall::Readln),
            WalkForm::Println => self.eval_println(items, env, f),
            WalkForm::Superpose => self.eval_superpose(items, env, f),
            WalkForm::Collapse => self.eval_collapse(items, env, f),
            WalkForm::Chain => self.eval_chain(items, env, f),
            WalkForm::Case => self.eval_case(items, env, f),
            WalkForm::Foldall => self.eval_foldall(items, env, f),
            WalkForm::MapAtom => self.eval_map_atom(items, env, f),
            WalkForm::Lambda => self.eval_lambda(items, env),
            WalkForm::Forall => self.eval_forall(items, env, f),
            WalkForm::Empty => give_none(),
            WalkForm::PyCall => self.eval_py_call(items, env, f),
            WalkForm::ImportRs => self.eval_import_rs(items, env),
            WalkForm::Other => self.try_call_or_data(items, env, f),
        }
    }

    /// Evaluate one element of a list of data.
    pub fn eval_data_item(&mut self, x: &Expr, env: &Env, f: u64) -> (r: Result<Atom, Stop>)
        ensures
            (one_walked(r), final(self)@) == item_walked(x@, env@, old(self)@, f as nat),
        decreases f, 1nat, 0nat, 1nat,
    {
        broadcast use group_exprs;

        match x {
            Expr::Number(n) => Ok(Atom::Num(n.clone())),
            Expr::Str(t) => Ok(Atom::Str(t.clone())),
            Expr::Symbol(name) => Ok(value_of_name(name.as_str(), env)),
            Expr::List(items) => {
                assert(exprs(items@).len() == items@.len());
                if items.len() == 0 {
                    let none: Vec<Atom> = Vec::new();
                    assert(atoms(none@) =~= Seq::<AtomV>::empty());
                    Ok(Atom::expr(none))
                } else {
                    self.eval_first(x, env, f, "expression produced no results in data list")
                }
            },
        }
    }

    /// Evaluate the elements of a list of data from a position on, behind those
    /// that are evaluated already.
    pub fn eval_data_list(
        &mut self,
        items: &Vec<Expr>,
        from: usize,
        before: Vec<Atom>,
        env: &Env,
        f: u64,
    ) -> (r: Walked)
        requires
            from <= items@.len(),
        ensures
            (walked_value(r), final(self)@) == data_walked(
                exprs(items@),
                from as nat,
                atoms(before@),
                env@,
                old(self)@,
                f as nat,
            ),
        decreases f, 2nat, 0nat, items@.len() - from,
    {
        broadcast use group_exprs;

        let ghost xs = exprs(items@);
        let ghost want = data_walked(
            xs,
            from as nat,
            atoms(before@),
            env@,
            self@,
            f as nat,
        );
        let mut out = before;
        let mut i: usize = from;
        assert(xs.len() == items@.len());
        while i < items.len()
            invariant
                i <= items@.len(),
                xs == exprs(items@),
                xs.len() == items@.len(),
                want == data_walked(
                    xs,
                    from as nat,
                    atoms(before@),
                    env@,
                    old(self)@,
                    f as nat,
                ),
                want == data_walked(xs, i as nat, atoms(out@), env@, self@, f as nat),
            decreases items@.len() - i,
        {
            assert(xs[i as int] == items@[i as int]@);
            match self.eval_data_item(&items[i], env, f) {
                Err(e) => {
                    return Err(e);
                },
                Ok(a) => {
                    let ghost o = out@;
                    out.push(a);
                    assert(atoms(out@) =~= atoms(o).push(a@));
                },
            }
            i += 1;
        }
        give_one(Atom::expr(out))
    }
}

} // verus!
