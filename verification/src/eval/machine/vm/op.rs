//! Instructions of the bytecode machine.
use crate::atom::Atom;
use crate::atom::AtomV;
use crate::expr::Expr;
use crate::expr::ExprV;
use crate::expr::exprs;
use crate::text::texts;
use std::sync::Arc;
use vstd::prelude::*;

verus! {

/// Code together with the names of its free variables.
pub struct Block {
    /// The instructions.
    pub code: Arc<Vec<Opcode>>,
    /// The names of the free variables, by index.
    pub free_vars: Arc<Vec<String>>,
}

/// A branch of a `case`.
pub struct CaseBranch {
    /// The pattern.
    pub pattern: Expr,
    /// The body.
    pub body: Block,
    /// The variables of the pattern.
    pub pattern_vars: Arc<Vec<String>>,
}

/// Where the value of a variable in quoted data comes from.
#[derive(Clone, Copy, PartialEq, Eq, Structural)]
pub enum QuoteVarSource {
    /// A local variable.
    Local(u8),
    /// A free variable.
    Free(u8),
}

/// A variable in quoted data.
pub struct QuoteVarMatch {
    /// Where it stands.
    pub path: Vec<usize>,
    /// Where its value comes from.
    pub source: QuoteVarSource,
}

/// A step of a chain: an expression and the variable bound to its value.
pub struct ChainStep {
    /// The code of the expression.
    pub code: Arc<Vec<Opcode>>,
    /// The variable.
    pub var: String,
}

/// A body run for each element that matches a pattern.
pub struct PatternBody {
    /// The pattern.
    pub pattern: Expr,
    /// The body.
    pub body: Block,
    /// The variables of the pattern.
    pub pattern_vars: Arc<Vec<String>>,
}

/// An instruction.
pub enum Opcode {
    /// Push a value.
    Const(Atom),
    /// Push quoted data with variables filled in.
    ConstQuote {
        /// The data.
        template: Atom,
        /// The variables.
        vars: Arc<Vec<QuoteVarMatch>>,
    },
    /// Push a local variable.
    Load(u8),
    /// Pop into a local variable.
    Store(u8),
    /// Push a free variable.
    LoadFree(u8),
    /// Pop.
    Pop,
    /// Go on elsewhere.
    Jump(usize),
    /// Pop, and go on elsewhere when there is no value.
    JumpIfEmpty(usize),
    /// Pop, and go on elsewhere unless the value is true.
    JumpIfFalsy(usize),
    /// Apply a function to a number of arguments.
    Call(u8),
    /// Apply the running function to the arguments in its local variables.
    TailCallSelf,
    /// Match the top value against a pattern and store its variables.
    UnifyPattern(Expr, u8),
    /// Drop local variables.
    PopLocals(u8),
    /// Add an atom to a space.
    AddAtom {
        /// The atom.
        expr: Expr,
        /// The names of the local variables.
        local_names: Arc<Vec<String>>,
    },
    /// Remove an atom from a space.
    RemAtom {
        /// The atom.
        expr: Expr,
        /// The names of the local variables.
        local_names: Arc<Vec<String>>,
    },
    /// Pay from the budget.
    DebitBudget(i64),
    /// Put all values into a list.
    Collapse,
    /// Put the values of several result sets together.
    Superpose(u8),
    /// Turn the elements of a list into values.
    SuperposeUnpack,
    /// Evaluate a value.
    Eval,
    /// Make an anonymous function.
    Lambda {
        /// The parameters.
        params: Arc<Vec<Expr>>,
        /// The body.
        result: Expr,
        /// The names of the local variables.
        local_names: Arc<Vec<String>>,
    },
    /// Match values and branch.
    Unify {
        /// The pattern for values.
        pattern_a: Expr,
        /// The pattern for a space.
        pattern_b: Expr,
        /// What to do for each match.
        then_code: Arc<Vec<Opcode>>,
        /// What to do without a match.
        else_code: Arc<Vec<Opcode>>,
        /// The variables of the pattern.
        pattern_vars: Arc<Vec<String>>,
        /// The names of the local variables.
        local_names: Arc<Vec<String>>,
        /// The names of the free variables.
        free_vars: Arc<Vec<String>>,
    },
    /// Push a result set without values.
    ConstEmpty,
    /// Give up other alternatives.
    Cut,
    /// Print a value.
    Println,
    /// Read a line.
    Readln,
    /// Bind the variables of a pattern.
    Let(PatternBody),
    /// Branch on a condition.
    If {
        /// What to do when it holds.
        then_code: Arc<Vec<Opcode>>,
        /// What to do when it does not.
        else_code: Arc<Vec<Opcode>>,
        /// The names of the free variables.
        free_vars: Arc<Vec<String>>,
    },
    /// Branch on the shape of a value.
    Case(Arc<Vec<CaseBranch>>),
    /// Run a body for each match in a space.
    Match {
        /// The pattern and the body.
        pattern: PatternBody,
        /// The names of the local variables.
        local_names: Arc<Vec<String>>,
    },
    /// Fold the values of a generator.
    Foldall,
    /// Check all values of a generator.
    Forall,
    /// Fold a list with a function.
    Foldl,
    /// Fold a list with a body.
    FoldlLambda {
        /// The accumulator, the element, and further variables.
        var_names: Arc<Vec<String>>,
        /// The body.
        body: Block,
    },
    /// Map a list with a body.
    MapAtomLambda {
        /// The variable of the element.
        var_name: String,
        /// The body.
        body: Block,
    },
    /// Filter a list with a body.
    FilterAtomLambda {
        /// The variable of the element.
        var_name: String,
        /// The body.
        body: Block,
    },
    /// Keep the first value of a body.
    Once(Block),
    /// Run bodies in sequence and keep the last result.
    Progn {
        /// The bodies.
        bodies: Arc<Vec<Arc<Vec<Opcode>>>>,
        /// The names of the free variables.
        free_vars: Arc<Vec<String>>,
    },
    /// Run bodies in sequence and keep the first result.
    Prog1 {
        /// The bodies.
        bodies: Arc<Vec<Arc<Vec<Opcode>>>>,
        /// The names of the free variables.
        free_vars: Arc<Vec<String>>,
    },
    /// Bind values one after the other, then run a body.
    Chain {
        /// The values and their variables.
        steps: Arc<Vec<ChainStep>>,
        /// The body.
        last: Block,
    },
    /// Put all values of a body into a list headed by `within`.
    Within(Block),
    /// Run a body while a named mutex is held.
    WithMutex(Block),
    /// Run a body, and undo what it did when it fails.
    Transaction(Block),
    /// Load a program file into a space.
    ImportFile(String),
    /// Load a Python file.
    PythonImport(String),
    /// Call Python.
    PyCall(Expr),
    /// Evaluate Python.
    PyEval(Expr),
    /// Load a file whose name is computed.
    ImportDynamic,
    /// Compare all values with expected ones and report.
    Test,
    /// Map the elements of a list that match a pattern.
    MapAtomPatternLambda(PatternBody),
    /// Filter the elements of a list that match a pattern.
    FilterAtomPatternLambda(PatternBody),
    /// Evaluate an expression with the continuation machine.
    EvalCEK {
        /// The expression.
        expr: Expr,
        /// The names of the local variables.
        local_names: Arc<Vec<String>>,
    },
}

/// The value of a block.
pub struct BlockV {
    /// The instructions.
    pub code: Seq<OpcodeV>,
    /// The names of the free variables.
    pub free_vars: Seq<Seq<char>>,
}

/// The value of a pattern with a body.
pub struct PatternBodyV {
    /// The pattern.
    pub pattern: ExprV,
    /// The body.
    pub body: BlockV,
    /// The variables of the pattern.
    pub pattern_vars: Seq<Seq<char>>,
}

/// The value of an instruction.
pub enum OpcodeV {
    /// Push a value.
    Const(AtomV),
    /// Push quoted data with variables filled in.
    ConstQuote(AtomV, Seq<(Seq<usize>, QuoteVarSource)>),
    /// Push a local variable.
    Load(u8),
    /// Pop into a local variable.
    Store(u8),
    /// Push a free variable.
    LoadFree(u8),
    /// Pop.
    Pop,
    /// Go on elsewhere.
    Jump(usize),
    /// Pop, and go on elsewhere when there is no value.
    JumpIfEmpty(usize),
    /// Pop, and go on elsewhere unless the value is true.
    JumpIfFalsy(usize),
    /// Apply a function.
    Call(u8),
    /// Apply the running function.
    TailCallSelf,
    /// Match the top value against a pattern.
    UnifyPattern(ExprV, u8),
    /// Drop local variables.
    PopLocals(u8),
    /// Add an atom to a space.
    AddAtom(ExprV, Seq<Seq<char>>),
    /// Remove an atom from a space.
    RemAtom(ExprV, Seq<Seq<char>>),
    /// Pay from the budget.
    DebitBudget(i64),
    /// Put all values into a list.
    Collapse,
    /// Put the values of several result sets together.
    Superpose(u8),
    /// Turn the elements of a list into values.
    SuperposeUnpack,
    /// Evaluate a value.
    Eval,
    /// Make an anonymous function.
    Lambda(Seq<ExprV>, ExprV, Seq<Seq<char>>),
    /// Match values and branch.
    Unify {
        /// The pattern for values.
        pattern_a: ExprV,
        /// The pattern for a space.
        pattern_b: ExprV,
        /// What to do for each match.
        then_code: Seq<OpcodeV>,
        /// What to do without a match.
        else_code: Seq<OpcodeV>,
        /// The variables of the pattern.
        pattern_vars: Seq<Seq<char>>,
        /// The names of the local variables.
        local_names: Seq<Seq<char>>,
        /// The names of the free variables.
        free_vars: Seq<Seq<char>>,
    },
    /// Push a result set without values.
    ConstEmpty,
    /// Give up other alternatives.
    Cut,
    /// Print a value.
    Println,
    /// Read a line.
    Readln,
    /// Bind the variables of a pattern.
    Let(PatternBodyV),
    /// Branch on a condition.
    If(Seq<OpcodeV>, Seq<OpcodeV>, Seq<Seq<char>>),
    /// Branch on the shape of a value.
    Case(Seq<PatternBodyV>),
    /// Run a body for each match in a space.
    Match(PatternBodyV, Seq<Seq<char>>),
    /// Fold the values of a generator.
    Foldall,
    /// Check all values of a generator.
    Forall,
    /// Fold a list with a function.
    Foldl,
    /// Fold a list with a body.
    FoldlLambda(Seq<Seq<char>>, BlockV),
    /// Map a list with a body.
    MapAtomLambda(Seq<char>, BlockV),
    /// Filter a list with a body.
    FilterAtomLambda(Seq<char>, BlockV),
    /// Keep the first value of a body.
    Once(BlockV),
    /// Run bodies in sequence and keep the last result.
    Progn(Seq<Seq<OpcodeV>>, Seq<Seq<char>>),
    /// Run bodies in sequence and keep the first result.
    Prog1(Seq<Seq<OpcodeV>>, Seq<Seq<char>>),
    /// Bind values one after the other, then run a body.
    Chain(Seq<(Seq<OpcodeV>, Seq<char>)>, BlockV),
    /// Put all values of a body into a list headed by `within`.
    Within(BlockV),
    /// Run a body while a named mutex is held.
    WithMutex(BlockV),
    /// Run a body, and undo what it did when it fails.
    Transaction(BlockV),
    /// Load a program file into a space.
    ImportFile(Seq<char>),
    /// Load a Python file.
    PythonImport(Seq<char>),
    /// Call Python.
    PyCall(ExprV),
    /// Evaluate Python.
    PyEval(ExprV),
    /// Load a file whose name is computed.
    ImportDynamic,
    /// Compare all values with expected ones and report.
    Test,
    /// Map the elements of a list that match a pattern.
    MapAtomPatternLambda(PatternBodyV),
    /// Filter the elements of a list that match a pattern.
    FilterAtomPatternLambda(PatternBodyV),
    /// Evaluate an expression with the continuation machine.
    EvalCEK(ExprV, Seq<Seq<char>>),
}

/// The value of a block.
pub open spec fn block_view(b: Block) -> BlockV
    decreases b,
{
    BlockV { code: ops(b.code@), free_vars: texts(b.free_vars@) }
}

/// The value of a pattern with a body.
pub open spec fn pattern_view(p: PatternBody) -> PatternBodyV
    decreases p,
{
    PatternBodyV {
        pattern: p.pattern@,
        body: block_view(p.body),
        pattern_vars: texts(p.pattern_vars@),
    }
}

/// The value of a branch.
pub open spec fn branch_view(p: CaseBranch) -> PatternBodyV
    decreases p,
{
    PatternBodyV {
        pattern: p.pattern@,
        body: block_view(p.body),
        pattern_vars: texts(p.pattern_vars@),
    }
}

/// The values of branches.
pub open spec fn branches(s: Seq<CaseBranch>) -> Seq<PatternBodyV>
    decreases s,
{
    Seq::new(
        s.len(),
        |i: int|
            if 0 <= i < s.len() {
                branch_view(s[i])
            } else {
                arbitrary()
            },
    )
}

/// The values of bodies.
pub open spec fn bodies_view(s: Seq<Arc<Vec<Opcode>>>) -> Seq<Seq<OpcodeV>>
    decreases s,
{
    Seq::new(
        s.len(),
        |i: int|
            if 0 <= i < s.len() {
                ops(s[i]@)
            } else {
                arbitrary()
            },
    )
}

/// The values of the steps of a chain.
pub open spec fn steps_view(s: Seq<ChainStep>) -> Seq<(Seq<OpcodeV>, Seq<char>)>
    decreases s,
{
    Seq::new(
        s.len(),
        |i: int|
            if 0 <= i < s.len() {
                (ops(s[i].code@), s[i].var@)
            } else {
                arbitrary()
            },
    )
}

/// The values of the variables in quoted data.
pub open spec fn quote_vars(s: Seq<QuoteVarMatch>) -> Seq<(Seq<usize>, QuoteVarSource)> {
    Seq::new(s.len(), |i: int| (s[i].path@, s[i].source))
}

/// The value of an instruction.
pub open spec fn op_view(op: Opcode) -> OpcodeV
    decreases op,
{
    match op {
        Opcode::Const(a) => OpcodeV::Const(a@),
        Opcode::ConstQuote { template, vars } => OpcodeV::ConstQuote(
            template@,
            quote_vars(vars@),
        ),
        Opcode::Load(i) => OpcodeV::Load(i),
        Opcode::Store(i) => OpcodeV::Store(i),
        Opcode::LoadFree(i) => OpcodeV::LoadFree(i),
        Opcode::Pop => OpcodeV::Pop,
        Opcode::Jump(t) => OpcodeV::Jump(t),
        Opcode::JumpIfEmpty(t) => OpcodeV::JumpIfEmpty(t),
        Opcode::JumpIfFalsy(t) => OpcodeV::JumpIfFalsy(t),
        Opcode::Call(n) => OpcodeV::Call(n),
        Opcode::TailCallSelf => OpcodeV::TailCallSelf,
        Opcode::UnifyPattern(p, i) => OpcodeV::UnifyPattern(p@, i),
        Opcode::PopLocals(n) => OpcodeV::PopLocals(n),
        Opcode::AddAtom { expr, local_names } => OpcodeV::AddAtom(expr@, texts(local_names@)),
        Opcode::RemAtom { expr, local_names } => OpcodeV::RemAtom(expr@, texts(local_names@)),
        Opcode::DebitBudget(c) => OpcodeV::DebitBudget(c),
        Opcode::Collapse => OpcodeV::Collapse,
        Opcode::Superpose(n) => OpcodeV::Superpose(n),
        Opcode::SuperposeUnpack => OpcodeV::SuperposeUnpack,
        Opcode::Eval => OpcodeV::Eval,
        Opcode::Lambda { params, result, local_names } => OpcodeV::Lambda(
            exprs(params@),
            result@,
            texts(local_names@),
        ),
        Opcode::Unify {
            pattern_a,
            pattern_b,
            then_code,
            else_code,
            pattern_vars,
            local_names,
            free_vars,
        } => OpcodeV::Unify {
            pattern_a: pattern_a@,
            pattern_b: pattern_b@,
            then_code: ops(then_code@),
            else_code: ops(else_code@),
            pattern_vars: texts(pattern_vars@),
            local_names: texts(local_names@),
            free_vars: texts(free_vars@),
        },
        Opcode::ConstEmpty => OpcodeV::ConstEmpty,
        Opcode::Cut => OpcodeV::Cut,
        Opcode::Println => OpcodeV::Println,
        Opcode::Readln => OpcodeV::Readln,
        Opcode::Let(p) => OpcodeV::Let(pattern_view(p)),
        Opcode::If { then_code, else_code, free_vars } => OpcodeV::If(
            ops(then_code@),
            ops(else_code@),
            texts(free_vars@),
        ),
        Opcode::Case(v) => OpcodeV::Case(branches(v@)),
        Opcode::Match { pattern, local_names } => OpcodeV::Match(
            pattern_view(pattern),
            texts(local_names@),
        ),
        Opcode::Foldall => OpcodeV::Foldall,
        Opcode::Forall => OpcodeV::Forall,
        Opcode::Foldl => OpcodeV::Foldl,
        Opcode::FoldlLambda { var_names, body } => OpcodeV::FoldlLambda(
            texts(var_names@),
            block_view(body),
        ),
        Opcode::MapAtomLambda { var_name, body } => OpcodeV::MapAtomLambda(
            var_name@,
            block_view(body),
        ),
        Opcode::FilterAtomLambda { var_name, body } => OpcodeV::FilterAtomLambda(
            var_name@,
            block_view(body),
        ),
        Opcode::Once(b) => OpcodeV::Once(block_view(b)),
        Opcode::Progn { bodies, free_vars } => OpcodeV::Progn(
            bodies_view(bodies@),
            texts(free_vars@),
        ),
        Opcode::Prog1 { bodies, free_vars } => OpcodeV::Prog1(
            bodies_view(bodies@),
            texts(free_vars@),
        ),
        Opcode::Chain { steps, last } => OpcodeV::Chain(steps_view(steps@), block_view(last)),
        Opcode::Within(b) => OpcodeV::Within(block_view(b)),
        Opcode::WithMutex(b) => OpcodeV::WithMutex(block_view(b)),
        Opcode::Transaction(b) => OpcodeV::Transaction(block_view(b)),
        Opcode::ImportFile(p) => OpcodeV::ImportFile(p@),
        Opcode::PythonImport(p) => OpcodeV::PythonImport(p@),
        Opcode::PyCall(e) => OpcodeV::PyCall(e@),
        Opcode::PyEval(e) => OpcodeV::PyEval(e@),
        Opcode::ImportDynamic => OpcodeV::ImportDynamic,
        Opcode::Test => OpcodeV::Test,
        Opcode::MapAtomPatternLambda(p) => OpcodeV::MapAtomPatternLambda(pattern_view(p)),
        Opcode::FilterAtomPatternLambda(p) => OpcodeV::FilterAtomPatternLambda(pattern_view(p)),
        Opcode::EvalCEK { expr, local_names } => OpcodeV::EvalCEK(expr@, texts(local_names@)),
    }
}

/// The values of instructions.
pub open spec fn ops(s: Seq<Opcode>) -> Seq<OpcodeV>
    decreases s,
{
    Seq::new(
        s.len(),
        |i: int|
            if 0 <= i < s.len() {
                op_view(s[i])
            } else {
                arbitrary()
            },
    )
}

impl View for Opcode {
    type V = OpcodeV;

    open spec fn view(&self) -> OpcodeV {
        op_view(*self)
    }
}

impl View for Block {
    type V = BlockV;

    open spec fn view(&self) -> BlockV {
        block_view(*self)
    }
}

impl View for PatternBody {
    type V = PatternBodyV;

    open spec fn view(&self) -> PatternBodyV {
        pattern_view(*self)
    }
}

impl Clone for Block {
    fn clone(&self) -> (r: Block)
        ensures
            r == *self,
    {
        Block { code: self.code.clone(), free_vars: self.free_vars.clone() }
    }
}

impl Clone for PatternBody {
    fn clone(&self) -> (r: PatternBody)
        ensures
            r == *self,
    {
        PatternBody {
            pattern: self.pattern.clone(),
            body: self.body.clone(),
            pattern_vars: self.pattern_vars.clone(),
        }
    }
}

/// There are as many values as instructions.
pub broadcast proof fn lemma_ops_len(s: Seq<Opcode>)
    ensures
        #[trigger] ops(s).len() == s.len(),
{
}

/// The values stand in the order of the instructions.
pub broadcast proof fn lemma_ops_index(s: Seq<Opcode>, i: int)
    requires
        0 <= i < s.len(),
    ensures
        #[trigger] ops(s)[i] == s[i]@,
{
}

/// Adding an instruction adds its value.
pub broadcast proof fn lemma_ops_push(s: Seq<Opcode>, x: Opcode)
    ensures
        #[trigger] ops(s.push(x)) == ops(s).push(x@),
{
    assert(ops(s.push(x)) =~= ops(s).push(x@));
}

/// The facts on the values of instructions.
pub broadcast group group_ops {
    lemma_ops_len,
    lemma_ops_index,
    lemma_ops_push,
}

} // verus!
