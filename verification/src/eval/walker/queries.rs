//! Forms of the tree-walking evaluator for spaces, imports and printing.
use crate::atom::Atom;
use crate::atom::AtomV;
use crate::atom::atoms;
use crate::atom::canonical_name;
use crate::atom::sexpr;
use crate::atom::symbol;
use crate::compile::reify::atom_to_expr;
use crate::compile::reify::to_expr;
use crate::env::Env;
use crate::env::EnvV;
use crate::env::env_get;
use crate::env::pairs;
use crate::env::stacked;
use crate::eval::machine::vm::outcome::HostCall;
use crate::eval::machine::vm::outcome::HostV;
use crate::eval::shared::env::bind_all;
use crate::eval::shared::subst::atomized;
use crate::eval::shared::subst::expr_filled;
use crate::eval::shared::subst::fill_expr_vars;
use crate::eval::shared::subst::subst_and_atomize;
use crate::eval::walker::OneV;
use crate::eval::walker::OutV;
use crate::eval::walker::Stop;
use crate::eval::walker::StopV;
use crate::eval::walker::WalkV;
use crate::eval::walker::Walked;
use crate::eval::walker::Walker;
use crate::eval::walker::asked;
use crate::eval::walker::calls::atom_texts;
use crate::eval::walker::calls::separate;
use crate::eval::walker::calls::separated;
use crate::eval::walker::calls::write_atoms;
use crate::eval::walker::counted;
use crate::eval::walker::fail;
use crate::eval::walker::fail_counted;
use crate::eval::walker::failed;
use crate::eval::walker::first_or;
use crate::eval::walker::forms::arguments;
use crate::eval::walker::give_one;
use crate::eval::walker::gives;
use crate::eval::walker::gives_one;
use crate::eval::walker::join_atoms;
use crate::eval::walker::one_walked;
use crate::eval::walker::walked;
use crate::eval::walker::walked_value;
use crate::eval::walker::with_line;
use crate::eval::walker::with_table;
use crate::expr::Expr;
use crate::expr::ExprV;
use crate::expr::expr_text;
use crate::expr::exprs;
use crate::expr::group_exprs;
use crate::func::FnTable;
use crate::func::TableV;
use crate::space::FoundV;
use crate::space::MatchResult;
use crate::space::add_atom;
use crate::space::found_in;
use crate::space::found_values;
use crate::space::match_atoms;
use crate::space::remove_atom;
use crate::space::with_atom;
use crate::space::without_atom;
use crate::text::is_var;
use crate::text::is_var_name;
use crate::text::joined;
use crate::text::texts;
use vstd::prelude::*;
use vstd::string::*;

verus! {

/// The space that every space expression stands for.
pub open spec fn home() -> Seq<char> {
    canonical_name("&self"@)
}

/// The value of a space expression, which has to have one.
pub open spec fn space_walked(
    name: Seq<char>,
    items: Seq<ExprV>,
    env: EnvV,
    s: WalkV,
    f: nat,
) -> OneV
    decreases f, 1nat, 0nat, 0nat,
{
    first_or(walked(items[1], env, s, f), name + ": space expression produced no results"@)
}

/// The value of `(add-atom space atom)`.
pub open spec fn add_walked(items: Seq<ExprV>, env: EnvV, s: WalkV, f: nat) -> OutV
    decreases f, 8nat, 0nat, 0nat,
{
    let n = arguments(items);
    if n != 2 {
        failed(s, counted("add-atom: expected (space atom), got "@, n, " args"@))
    } else {
        let (r, s2) = space_walked("add-atom"@, items, env, s, f);
        match r {
            Err(e) => (Err(e), s2),
            Ok(_) => gives_one(
                with_table(s2, with_atom(s2.t, home(), atomized(items[2], env))),
                symbol("true"@),
            ),
        }
    }
}

/// A table without atoms that are found, from a position on, and whether one was
/// removed.
pub open spec fn found_removed(t: TableV, found: Seq<FoundV>, i: nat, any: bool) -> (TableV, bool)
    decreases found.len() - i,
{
    if i >= found.len() {
        (t, any)
    } else {
        let a = found[i as int].0;
        found_removed(
            without_atom(t, home(), a),
            found,
            i + 1,
            any || t.space(home()).contains(a),
        )
    }
}

/// The value of `(remove-atom space pattern)`: all atoms that match are removed.
pub open spec fn remove_walked(items: Seq<ExprV>, env: EnvV, s: WalkV, f: nat) -> OutV
    decreases f, 8nat, 0nat, 0nat,
{
    let n = arguments(items);
    if n != 2 {
        failed(s, counted("remove-atom: expected (space atom), got "@, n, " args"@))
    } else {
        let (r, s2) = space_walked("remove-atom"@, items, env, s, f);
        match r {
            Err(e) => (Err(e), s2),
            Ok(_) => {
                let found = found_in(expr_filled(items[2], env), s2.t.space(home()));
                let (t, any) = found_removed(s2.t, found, 0, false);
                gives_one(
                    with_table(s2, t),
                    symbol(
                        if any {
                            "true"@
                        } else {
                            ""@
                        },
                    ),
                )
            },
        }
    }
}

/// The values of a body for matches from a position on, behind those before.
pub open spec fn found_walked(
    found: Seq<FoundV>,
    i: nat,
    before: Seq<AtomV>,
    body: ExprV,
    env: EnvV,
    s: WalkV,
    f: nat,
) -> OutV
    decreases f, 1nat, 0nat, found.len() - i,
{
    if i >= found.len() {
        gives(s, before)
    } else {
        let (r, s2) = walked(body, stacked(found[i as int].1, env), s, f);
        match r {
            Err(e) => (Err(e), s2),
            Ok(vs) => found_walked(found, i + 1, before + vs, body, env, s2, f),
        }
    }
}

/// The body that is evaluated for matches: the value of a bound variable is
/// taken as code.
pub open spec fn template(x: ExprV, env: EnvV) -> ExprV {
    match x {
        ExprV::Symbol(name) => if is_var_name(name) && env_get(env, name) is Some {
            to_expr(env_get(env, name)->Some_0)
        } else {
            x
        },
        _ => x,
    }
}

/// The values of `(match space pattern body)`.
pub open spec fn match_walked(items: Seq<ExprV>, env: EnvV, s: WalkV, f: nat) -> OutV
    decreases f, 8nat, 0nat, 0nat,
{
    let n = arguments(items);
    if n != 3 {
        failed(s, counted("match: expected (space pattern body), got "@, n, " args"@))
    } else {
        let (r, s2) = space_walked("match"@, items, env, s, f);
        match r {
            Err(e) => (Err(e), s2),
            Ok(_) => found_walked(
                found_in(expr_filled(items[2], env), s2.t.space(home())),
                0,
                Seq::empty(),
                template(items[3], env),
                env,
                s2,
                f,
            ),
        }
    }
}

/// The value of `(import! space path)`.
pub open spec fn import_walked(items: Seq<ExprV>, env: EnvV, s: WalkV, f: nat) -> OutV
    decreases f, 8nat, 0nat, 0nat,
{
    let n = arguments(items);
    if n != 2 {
        failed(s, counted("import!: expected (space path), got "@, n, " args"@))
    } else {
        let (r, s2) = space_walked("import!"@, items, env, s, f);
        match r {
            Err(e) => (Err(e), s2),
            Ok(a) => match items[2] {
                ExprV::Number(_) => failed(
                    s2,
                    "import!: file path must be a symbol, not a number"@,
                ),
                ExprV::List(_) => failed(s2, "import!: file path must be a symbol, not a list"@),
                ExprV::Symbol(path) => imported(asked(HostV::Import(path, a, env), s2)),
                ExprV::Str(path) => imported(asked(HostV::Import(path, a, env), s2)),
            },
        }
    }
}

/// The value of an import that succeeds.
pub open spec fn imported(out: OutV) -> OutV {
    match out.0 {
        Err(e) => (Err(e), out.1),
        Ok(_) => gives_one(out.1, symbol("true"@)),
    }
}

/// The text that is printed for a value: the elements of a list, with blanks
/// between them.
pub open spec fn printed(a: AtomV) -> Seq<char> {
    match a {
        AtomV::Expr(xs) => separated(atom_texts(xs), " "@),
        other => sexpr(other),
    }
}

/// The texts of arguments from a position on, behind those before.
pub open spec fn printed_from(
    items: Seq<ExprV>,
    i: nat,
    before: Seq<Seq<char>>,
    env: EnvV,
    s: WalkV,
    f: nat,
) -> (Result<Seq<Seq<char>>, StopV>, WalkV)
    decreases f, 1nat, 0nat, items.len() - i,
{
    if i >= items.len() {
        (Ok(before), s)
    } else {
        let (r, s2) = first_or(
            walked(items[i as int], env, s, f),
            "println!: argument produced no results: "@ + expr_text(items[i as int]),
        );
        match r {
            Err(e) => (Err(e), s2),
            Ok(a) => printed_from(items, i + 1, before.push(printed(a)), env, s2, f),
        }
    }
}

/// The value of `(println! args...)`.
pub open spec fn println_walked(items: Seq<ExprV>, env: EnvV, s: WalkV, f: nat) -> OutV
    decreases f, 8nat, 0nat, 0nat,
{
    let (r, s2) = printed_from(items, 1, Seq::empty(), env, s, f);
    match r {
        Err(e) => (Err(e), s2),
        Ok(parts) => gives_one(with_line(s2, separated(parts, " "@)), symbol("true"@)),
    }
}

/// Search the space of the program for a pattern, with its bound variables
/// replaced first.
fn search_home(table: &FnTable, pattern: &Expr, env: &Env) -> (r: Vec<MatchResult>)
    ensures
        found_values(r@) == found_in(expr_filled(pattern@, env@), table@.space(home())),
{
    proof {
        reveal_strlit("&self");
        reveal_strlit("True");
        reveal_strlit("False");
        assert("&self"@[0] == '&' && "True"@[0] == 'T' && "False"@[0] == 'F');
    }
    let p = fill_expr_vars(pattern, env);
    let list = table.space_atoms("&self");
    match_atoms(&p, &list)
}

/// Find the body that is evaluated for matches.
fn find_template(x: &Expr, env: &Env) -> (r: Expr)
    ensures
        r@ == template(x@, env@),
{
    match x {
        Expr::Symbol(name) => {
            if is_var(name.as_str()) {
                match env.get(name.as_str()) {
                    Some(a) => match atom_to_expr(&a) {
                        Ok(e) => e,
                        Err(_) => x.clone(),
                    },
                    None => x.clone(),
                }
            } else {
                x.clone()
            }
        },
        _ => x.clone(),
    }
}

/// Write the text that is printed for a value.
fn write_printed(a: &Atom) -> (r: String)
    ensures
        r@ == printed(a@),
{
    match a {
        Atom::Expr(xs) => {
            let parts = write_atoms(xs);
            separate(&parts, " ")
        },
        other => other.to_sexpr_string(),
    }
}

/// Remove atoms that are found.
fn remove_found(table: &mut FnTable, found: &Vec<MatchResult>) -> (r: bool)
    ensures
        (final(table)@, r) == found_removed(old(table)@, found_values(found@), 0, false),
{
    let ghost fv = found_values(found@);
    let ghost want = found_removed(table@, fv, 0, false);
    let space = Atom::sym("&self");
    let mut any: bool = false;
    let mut i: usize = 0;
    assert(fv.len() == found@.len());
    while i < found.len()
        invariant
            i <= found@.len(),
            fv == found_values(found@),
            fv.len() == found@.len(),
            space@ == symbol("&self"@),
            want == found_removed(old(table)@, fv, 0, false),
            want == found_removed(table@, fv, i as nat, any),
        decreases found@.len() - i,
    {
        assert(fv[i as int].0 == found@[i as int].atom@);
        match remove_atom(table, &space, &found[i].atom) {
            Ok(b) => {
                any = any || b;
            },
            Err(_) => {},
        }
        i += 1;
    }
    any
}

impl Walker {
    /// Evaluate a space expression.
    fn eval_space(&mut self, name: &str, items: &Vec<Expr>, env: &Env, f: u64) -> (r: Result<
        Atom,
        Stop,
    >)
        requires
            items@.len() > 1,
        ensures
            (one_walked(r), final(self)@) == space_walked(
                name@,
                exprs(items@),
                env@,
                old(self)@,
                f as nat,
            ),
        decreases f, 2nat, 0nat, 0nat,
    {
        broadcast use group_exprs;

        assert(exprs(items@)[1] == items@[1]@);
        let m = joined(name, ": space expression produced no results");
        self.eval_first(&items[1], env, f, m.as_str())
    }

    /// Evaluate `(add-atom space atom)`.
    pub fn eval_add_atom(&mut self, items: &Vec<Expr>, env: &Env, f: u64) -> (r: Walked)
        requires
            items@.len() > 0,
        ensures
            (walked_value(r), final(self)@) == add_walked(
                exprs(items@),
                env@,
                old(self)@,
                f as nat,
            ),
        decreases f, 8nat, 0nat, 0nat,
    {
        broadcast use group_exprs;

        let ghost xs = exprs(items@);
        assert(xs.len() == items@.len());
        let n: usize = items.len() - 1;
        if n != 2 {
            return fail_counted("add-atom: expected (space atom), got ", n, " args");
        }
        assert(xs[2] == items@[2]@);
        match self.eval_space("add-atom", items, env, f) {
            Err(e) => Err(e),
            Ok(_) => {
                let a = subst_and_atomize(&items[2], env);
                match add_atom(&mut self.table, &Atom::sym("&self"), &a) {
                    Ok(_) => {},
                    Err(_) => {},
                }
                give_one(Atom::sym("true"))
            },
        }
    }

    /// Evaluate `(remove-atom space pattern)`.
    pub fn eval_remove_atom(&mut self, items: &Vec<Expr>, env: &Env, f: u64) -> (r: Walked)
        requires
            items@.len() > 0,
        ensures
            (walked_value(r), final(self)@) == remove_walked(
                exprs(items@),
                env@,
                old(self)@,
                f as nat,
            ),
        decreases f, 8nat, 0nat, 0nat,
    {
        broadcast use group_exprs;

        let ghost xs = exprs(items@);
        assert(xs.len() == items@.len());
        let n: usize = items.len() - 1;
        if n != 2 {
            return fail_counted("remove-atom: expected (space atom), got ", n, " args");
        }
        assert(xs[2] == items@[2]@);
        match self.eval_space("remove-atom", items, env, f) {
            Err(e) => Err(e),
            Ok(_) => {
                let found = search_home(&self.table, &items[2], env);
                let any = remove_found(&mut self.table, &found);
                if any {
                    give_one(Atom::sym("true"))
                } else {
                    give_one(Atom::sym(""))
                }
            },
        }
    }

    /// Evaluate a body for each match.
    fn eval_found(&mut self, found: &Vec<MatchResult>, body: &Expr, env: &Env, f: u64) -> (r: Walked)
        ensures
            (walked_value(r), final(self)@) == found_walked(
                found_values(found@),
                0,
                Seq::empty(),
                body@,
                env@,
                old(self)@,
                f as nat,
            ),
        decreases f, 1nat, 0nat, found@.len() + 1,
    {
        let ghost fv = found_values(found@);
        let ghost want = found_walked(fv, 0, Seq::empty(), body@, env@, self@, f as nat);
        let mut out: Vec<Atom> = Vec::new();
        let mut i: usize = 0;
        assert(fv.len() == found@.len());
        assert(atoms(out@) =~= Seq::<AtomV>::empty());
        while i < found.len()
            invariant
                i <= found@.len(),
                fv == found_values(found@),
                fv.len() == found@.len(),
                want == found_walked(fv, 0, Seq::empty(), body@, env@, old(self)@, f as nat),
                want == found_walked(
                    fv,
                    i as nat,
                    atoms(out@),
                    body@,
                    env@,
                    self@,
                    f as nat,
                ),
            decreases found@.len() - i,
        {
            assert(fv[i as int] == (found@[i as int].atom@, pairs(found@[i as int].bindings@)));
            let inner = bind_all(env, &found[i].bindings);
            match self.eval(body, &inner, f) {
                Err(e) => {
                    return Err(e);
                },
                Ok(vs) => {
                    out = join_atoms(out, vs);
                },
            }
            i += 1;
        }
        Ok(out)
    }

    /// Evaluate `(match space pattern body)`.
    pub fn eval_match(&mut self, items: &Vec<Expr>, env: &Env, f: u64) -> (r: Walked)
        requires
            items@.len() > 0,
        ensures
            (walked_value(r), final(self)@) == match_walked(
                exprs(items@),
                env@,
                old(self)@,
                f as nat,
            ),
        decreases f, 8nat, 0nat, 0nat,
    {
        broadcast use group_exprs;

        let ghost xs = exprs(items@);
        assert(xs.len() == items@.len());
        let n: usize = items.len() - 1;
        if n != 3 {
            return fail_counted("match: expected (space pattern body), got ", n, " args");
        }
        assert(xs[2] == items@[2]@ && xs[3] == items@[3]@);
        match self.eval_space("match", items, env, f) {
            Err(e) => Err(e),
            Ok(_) => {
                let found = search_home(&self.table, &items[2], env);
                let body = find_template(&items[3], env);
                self.eval_found(&found, &body, env, f)
            },
        }
    }

    /// Ask for an import.
    fn ask_import(&mut self, path: String, space: Atom, env: &Env) -> (r: Walked)
        ensures
            (walked_value(r), final(self)@) == imported(
                asked(HostV::Import(path@, space@, env@), old(self)@),
            ),
    {
        match self.ask(HostCall::Import(path, space, env.clone())) {
            Err(e) => Err(e),
            Ok(_) => give_one(Atom::sym("true")),
        }
    }

    /// Evaluate `(import! space path)`.
    pub fn eval_import(&mut self, items: &Vec<Expr>, env: &Env, f: u64) -> (r: Walked)
        requires
            items@.len() > 0,
        ensures
            (walked_value(r), final(self)@) == import_walked(
                exprs(items@),
                env@,
                old(self)@,
                f as nat,
            ),
        decreases f, 8nat, 0nat, 0nat,
    {
        broadcast use group_exprs;

        let ghost xs = exprs(items@);
        assert(xs.len() == items@.len());
        let n: usize = items.len() - 1;
        if n != 2 {
            return fail_counted("import!: expected (space path), got ", n, " args");
        }
        assert(xs[2] == items@[2]@);
        match self.eval_space("import!", items, env, f) {
            Err(e) => Err(e),
            Ok(a) => match &items[2] {
                Expr::Number(_) => fail("import!: file path must be a symbol, not a number"),
                Expr::List(_) => fail("import!: file path must be a symbol, not a list"),
                Expr::Symbol(path) => self.ask_import(path.clone(), a, env),
                Expr::Str(path) => self.ask_import(path.clone(), a, env),
            },
        }
    }

    /// Evaluate `(println! args...)`.
    pub fn eval_println(&mut self, items: &Vec<Expr>, env: &Env, f: u64) -> (r: Walked)
        requires
            items@.len() > 0,
        ensures
            (walked_value(r), final(self)@) == println_walked(
                exprs(items@),
                env@,
                old(self)@,
                f as nat,
            ),
        decreases f, 8nat, 0nat, 0nat,
    {
        broadcast use group_exprs;

        let ghost xs = exprs(items@);
        let ghost want = printed_from(xs, 1, Seq::empty(), env@, self@, f as nat);
        let mut parts: Vec<String> = Vec::new();
        let mut i: usize = 1;
        assert(xs.len() == items@.len());
        assert(texts(parts@) =~= Seq::<Seq<char>>::empty());
        while i < items.len()
            invariant
                1 <= i <= items@.len(),
                xs == exprs(items@),
                xs.len() == items@.len(),
                want == printed_from(xs, 1, Seq::empty(), env@, old(self)@, f as nat),
                want == printed_from(xs, i as nat, texts(parts@), env@, self@, f as nat),
            decreases items@.len() - i,
        {
            assert(xs[i as int] == items@[i as int]@);
            let t = items[i].to_text();
            let m = joined("println!: argument produced no results: ", t.as_str());
            match self.eval_first(&items[i], env, f, m.as_str()) {
                Err(e) => {
                    return Err(e);
                },
                Ok(a) => {
                    let ghost before = parts@;
                    let part = write_printed(&a);
                    parts.push(part);
                    assert(texts(parts@) =~= texts(before).push(part@));
                },
            }
            i += 1;
        }
        let line = separate(&parts, " ");
        self.say(line);
        give_one(Atom::sym("true"))
    }
}

} // verus!
