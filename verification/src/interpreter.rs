//! Runtime data model (values, bindings, functions, statements, expressions)
//! and the tree-walking evaluator.
//!
//! Every statement and expression form is evaluated against an explicit
//! runtime frame of variable bindings and declared functions.  Evaluation is
//! specified by a step-indexed mathematical interpreter over views of the
//! runtime types; the executable evaluator is proved to return exactly what
//! the mathematical one does.  The step index doubles as the external
//! cancellation budget: when it runs out, evaluation stops with a
//! `Cancelled` outcome at the next statement or loop boundary.

use vstd::prelude::*;

verus! {

// ==========================================================================
// Values
// ==========================================================================

/// A runtime value of the scripting language.
///
/// Scalars are unit, integer, boolean and string values; compound values are
/// ordered sequences that own their elements, so no cycles are possible.
#[derive(Debug, PartialEq)]
pub enum Value {
    NoneVal,
    Integer(i64),
    Boolean(bool),
    Str(String),
    List(Vec<Value>),
    Tuple(Vec<Value>),
    SetVal(Vec<Value>),
}

/// Mathematical model of a `Value`: strings as character sequences and
/// compound values as sequences of models.
pub enum ValueV {
    NoneVal,
    Integer(i64),
    Boolean(bool),
    Str(Seq<char>),
    List(Seq<ValueV>),
    Tuple(Seq<ValueV>),
    SetVal(Seq<ValueV>),
}

pub open spec fn values_view(s: Seq<Value>) -> Seq<ValueV>
    decreases s,
{
    if s.len() == 0 {
        Seq::empty()
    } else {
        seq![value_view(s.first())] + values_view(s.drop_first())
    }
}

pub open spec fn value_view(v: Value) -> ValueV
    decreases v,
{
    match v {
        Value::NoneVal => ValueV::NoneVal,
        Value::Integer(i) => ValueV::Integer(i),
        Value::Boolean(b) => ValueV::Boolean(b),
        Value::Str(s) => ValueV::Str(s@),
        Value::List(items) => ValueV::List(values_view(items@)),
        Value::Tuple(items) => ValueV::Tuple(values_view(items@)),
        Value::SetVal(items) => ValueV::SetVal(values_view(items@)),
    }
}

impl View for Value {
    type V = ValueV;

    open spec fn view(&self) -> ValueV {
        value_view(*self)
    }
}

pub broadcast proof fn lemma_values_view_len(s: Seq<Value>)
    ensures
        #[trigger] values_view(s).len() == s.len(),
    decreases s,
{
    if s.len() > 0 {
        lemma_values_view_len(s.drop_first());
    }
}

pub broadcast proof fn lemma_values_view_index(s: Seq<Value>, i: int)
    requires
        0 <= i < s.len(),
    ensures
        #[trigger] values_view(s)[i] == value_view(s[i]),
    decreases s,
{
    broadcast use lemma_values_view_len;

    if i > 0 {
        lemma_values_view_index(s.drop_first(), i - 1);
    }
}

// ==========================================================================
// Operators
// ==========================================================================

/// Binary operators of the expression grammar.
#[derive(Debug, Clone, Copy, PartialEq, Eq, Structural)]
pub enum BinaryOperator {
    Add,
    Subtract,
    Multiply,
    Divide,
    Modulo,
    Equal,
    NotEqual,
    LessThan,
    GreaterThan,
    LessThanOrEqual,
    GreaterThanOrEqual,
    And,
    Or,
}

/// Unary operators of the expression grammar.
#[derive(Debug, Clone, Copy, PartialEq, Eq, Structural)]
pub enum UnaryOperator {
    Not,
    Minus,
}

// ==========================================================================
// AST
// ==========================================================================

/// A declared function: name, ordered parameters (each with an optional
/// default value), and an ordered statement body.
#[derive(Debug, PartialEq)]
pub struct Function {
    pub name: String,
    pub params: Vec<(String, Option<Value>)>,
    pub body: Vec<Statement>,
}

/// A statement of the language.
#[derive(Debug, PartialEq)]
pub enum Statement {
    Assignment(String, Expression),
    Expression(Expression),
    If(Expression, Vec<Statement>, Option<Vec<Statement>>),
    While(Expression, Vec<Statement>),
    For(String, Expression, Expression, Vec<Statement>),
    Function(Function),
    Return(Expression),
    Import(String),
}

/// An expression of the language.
#[derive(Debug, PartialEq)]
pub enum Expression {
    Binary(Box<Expression>, BinaryOperator, Box<Expression>),
    Unary(UnaryOperator, Box<Expression>),
    Literal(Value),
    Variable(String),
    FunctionCall(String, Vec<Expression>),
}

/// Model of a `Function`.
pub struct FunctionV {
    pub name: Seq<char>,
    pub params: Seq<(Seq<char>, Option<ValueV>)>,
    pub body: Seq<StatementV>,
}

/// Model of a `Statement`.
pub enum StatementV {
    Assignment(Seq<char>, ExpressionV),
    Expression(ExpressionV),
    If(ExpressionV, Seq<StatementV>, Option<Seq<StatementV>>),
    While(ExpressionV, Seq<StatementV>),
    For(Seq<char>, ExpressionV, ExpressionV, Seq<StatementV>),
    Function(FunctionV),
    Return(ExpressionV),
    Import(Seq<char>),
}

/// Model of an `Expression`.
pub enum ExpressionV {
    Binary(Box<ExpressionV>, BinaryOperator, Box<ExpressionV>),
    Unary(UnaryOperator, Box<ExpressionV>),
    Literal(ValueV),
    Variable(Seq<char>),
    FunctionCall(Seq<char>, Seq<ExpressionV>),
}

pub open spec fn param_view(p: (String, Option<Value>)) -> (Seq<char>, Option<ValueV>) {
    (
        p.0@,
        match p.1 {
            Option::Some(v) => Option::Some(value_view(v)),
            Option::None => Option::None,
        },
    )
}

pub open spec fn params_view(s: Seq<(String, Option<Value>)>) -> Seq<(Seq<char>, Option<ValueV>)>
    decreases s,
{
    if s.len() == 0 {
        Seq::empty()
    } else {
        seq![param_view(s.first())] + params_view(s.drop_first())
    }
}

pub open spec fn exprs_view(s: Seq<Expression>) -> Seq<ExpressionV>
    decreases s,
{
    if s.len() == 0 {
        Seq::empty()
    } else {
        seq![expr_view(s.first())] + exprs_view(s.drop_first())
    }
}

pub open spec fn expr_view(e: Expression) -> ExpressionV
    decreases e,
{
    match e {
        Expression::Binary(l, op, r) => ExpressionV::Binary(
            Box::new(expr_view(*l)),
            op,
            Box::new(expr_view(*r)),
        ),
        Expression::Unary(op, inner) => ExpressionV::Unary(op, Box::new(expr_view(*inner))),
        Expression::Literal(v) => ExpressionV::Literal(value_view(v)),
        Expression::Variable(name) => ExpressionV::Variable(name@),
        Expression::FunctionCall(name, args) => ExpressionV::FunctionCall(
            name@,
            exprs_view(args@),
        ),
    }
}

pub open spec fn stmts_view(s: Seq<Statement>) -> Seq<StatementV>
    decreases s,
{
    if s.len() == 0 {
        Seq::empty()
    } else {
        seq![stmt_view(s.first())] + stmts_view(s.drop_first())
    }
}

pub open spec fn func_view(f: Function) -> FunctionV {
    FunctionV { name: f.name@, params: params_view(f.params@), body: stmts_view(f.body@) }
}

pub open spec fn stmt_view(s: Statement) -> StatementV
    decreases s,
{
    match s {
        Statement::Assignment(name, e) => StatementV::Assignment(name@, expr_view(e)),
        Statement::Expression(e) => StatementV::Expression(expr_view(e)),
        Statement::If(c, then_block, else_block) => StatementV::If(
            expr_view(c),
            stmts_view(then_block@),
            match else_block {
                Option::Some(b) => Option::Some(stmts_view(b@)),
                Option::None => Option::None,
            },
        ),
        Statement::While(c, body) => StatementV::While(expr_view(c), stmts_view(body@)),
        Statement::For(var, lo, hi, body) => StatementV::For(
            var@,
            expr_view(lo),
            expr_view(hi),
            stmts_view(body@),
        ),
        Statement::Function(f) => StatementV::Function(
            FunctionV {
                name: f.name@,
                params: params_view(f.params@),
                body: stmts_view(f.body@),
            },
        ),
        Statement::Return(e) => StatementV::Return(expr_view(e)),
        Statement::Import(name) => StatementV::Import(name@),
    }
}

impl View for Expression {
    type V = ExpressionV;

    open spec fn view(&self) -> ExpressionV {
        expr_view(*self)
    }
}

impl View for Statement {
    type V = StatementV;

    open spec fn view(&self) -> StatementV {
        stmt_view(*self)
    }
}

impl View for Function {
    type V = FunctionV;

    open spec fn view(&self) -> FunctionV {
        func_view(*self)
    }
}

pub broadcast proof fn lemma_params_view_len(s: Seq<(String, Option<Value>)>)
    ensures
        #[trigger] params_view(s).len() == s.len(),
    decreases s,
{
    if s.len() > 0 {
        lemma_params_view_len(s.drop_first());
    }
}

pub broadcast proof fn lemma_params_view_index(s: Seq<(String, Option<Value>)>, i: int)
    requires
        0 <= i < s.len(),
    ensures
        #[trigger] params_view(s)[i] == param_view(s[i]),
    decreases s,
{
    broadcast use lemma_params_view_len;

    if i > 0 {
        lemma_params_view_index(s.drop_first(), i - 1);
    }
}

pub broadcast proof fn lemma_exprs_view_len(s: Seq<Expression>)
    ensures
        #[trigger] exprs_view(s).len() == s.len(),
    decreases s,
{
    if s.len() > 0 {
        lemma_exprs_view_len(s.drop_first());
    }
}

pub broadcast proof fn lemma_exprs_view_index(s: Seq<Expression>, i: int)
    requires
        0 <= i < s.len(),
    ensures
        #[trigger] exprs_view(s)[i] == expr_view(s[i]),
    decreases s,
{
    broadcast use lemma_exprs_view_len;

    if i > 0 {
        lemma_exprs_view_index(s.drop_first(), i - 1);
    }
}

pub broadcast proof fn lemma_stmts_view_len(s: Seq<Statement>)
    ensures
        #[trigger] stmts_view(s).len() == s.len(),
    decreases s,
{
    if s.len() > 0 {
        lemma_stmts_view_len(s.drop_first());
    }
}

pub broadcast proof fn lemma_stmts_view_index(s: Seq<Statement>, i: int)
    requires
        0 <= i < s.len(),
    ensures
        #[trigger] stmts_view(s)[i] == stmt_view(s[i]),
    decreases s,
{
    broadcast use lemma_stmts_view_len;

    if i > 0 {
        lemma_stmts_view_index(s.drop_first(), i - 1);
    }
}

} // verus!

verus! {

// ==========================================================================
// Runtime environment
// ==========================================================================

/// A mutable binding of a name to a value, unique per frame.
#[derive(Debug, PartialEq)]
pub struct Variable {
    pub name: String,
    pub value: Value,
}

/// Model of a `Variable`.
pub struct VariableV {
    pub name: Seq<char>,
    pub value: ValueV,
}

pub open spec fn var_view(v: Variable) -> VariableV {
    VariableV { name: v.name@, value: value_view(v.value) }
}

pub open spec fn vars_view(s: Seq<Variable>) -> Seq<VariableV>
    decreases s,
{
    if s.len() == 0 {
        Seq::empty()
    } else {
        seq![var_view(s.first())] + vars_view(s.drop_first())
    }
}

pub open spec fn funcs_view(s: Seq<Function>) -> Seq<FunctionV>
    decreases s,
{
    if s.len() == 0 {
        Seq::empty()
    } else {
        seq![func_view(s.first())] + funcs_view(s.drop_first())
    }
}

impl View for Variable {
    type V = VariableV;

    open spec fn view(&self) -> VariableV {
        var_view(*self)
    }
}

pub broadcast proof fn lemma_vars_view_len(s: Seq<Variable>)
    ensures
        #[trigger] vars_view(s).len() == s.len(),
    decreases s,
{
    if s.len() > 0 {
        lemma_vars_view_len(s.drop_first());
    }
}

pub broadcast proof fn lemma_vars_view_index(s: Seq<Variable>, i: int)
    requires
        0 <= i < s.len(),
    ensures
        #[trigger] vars_view(s)[i] == var_view(s[i]),
    decreases s,
{
    broadcast use lemma_vars_view_len;

    if i > 0 {
        lemma_vars_view_index(s.drop_first(), i - 1);
    }
}

pub broadcast proof fn lemma_funcs_view_len(s: Seq<Function>)
    ensures
        #[trigger] funcs_view(s).len() == s.len(),
    decreases s,
{
    if s.len() > 0 {
        lemma_funcs_view_len(s.drop_first());
    }
}

pub broadcast proof fn lemma_funcs_view_index(s: Seq<Function>, i: int)
    requires
        0 <= i < s.len(),
    ensures
        #[trigger] funcs_view(s)[i] == func_view(s[i]),
    decreases s,
{
    broadcast use lemma_funcs_view_len;

    if i > 0 {
        lemma_funcs_view_index(s.drop_first(), i - 1);
    }
}

/// One runtime frame: variable bindings and declared functions.
#[derive(Debug)]
pub struct Interpreter {
    pub variables: Vec<Variable>,
    pub functions: Vec<Function>,
}

/// Model of a frame.
pub struct EnvV {
    pub vars: Seq<VariableV>,
    pub funcs: Seq<FunctionV>,
}

impl View for Interpreter {
    type V = EnvV;

    open spec fn view(&self) -> EnvV {
        EnvV { vars: vars_view(self.variables@), funcs: funcs_view(self.functions@) }
    }
}

// ==========================================================================
// Runtime errors and control flow
// ==========================================================================

/// The shape of a value, reported in type errors.
#[derive(Debug, Clone, Copy, PartialEq, Eq, Structural)]
pub enum ValueKind {
    NoneKind,
    IntegerKind,
    BooleanKind,
    StringKind,
    ListKind,
    TupleKind,
    SetKind,
}

/// The operation that a type error complains about.
#[derive(Debug, Clone, Copy, PartialEq, Eq, Structural)]
pub enum OpKind {
    Binary(BinaryOperator),
    Unary(UnaryOperator),
    Condition,
    ForRange,
}

/// The kind of an arithmetic failure.
#[derive(Debug, Clone, Copy, PartialEq, Eq, Structural)]
pub enum ArithKind {
    DivisionByZero,
    Overflow,
}

/// A typed, recoverable runtime failure.  `Cancelled` reports that the
/// external cancellation budget ran out; every other variant follows the
/// error taxonomy of the language.
#[derive(Debug, PartialEq)]
pub enum RuntimeError {
    NameError(String),
    TypeError(OpKind, ValueKind, Option<ValueKind>),
    ArithmeticError(ArithKind),
    ArityError(String, usize, usize),
    Cancelled,
}

/// Model of a `RuntimeError`.
pub enum ErrV {
    NameError(Seq<char>),
    TypeError(OpKind, ValueKind, Option<ValueKind>),
    ArithmeticError(ArithKind),
    ArityError(Seq<char>, usize, usize),
    Cancelled,
}

pub open spec fn err_view(e: RuntimeError) -> ErrV {
    match e {
        RuntimeError::NameError(n) => ErrV::NameError(n@),
        RuntimeError::TypeError(op, l, r) => ErrV::TypeError(op, l, r),
        RuntimeError::ArithmeticError(k) => ErrV::ArithmeticError(k),
        RuntimeError::ArityError(n, want, got) => ErrV::ArityError(n@, want, got),
        RuntimeError::Cancelled => ErrV::Cancelled,
    }
}

impl View for RuntimeError {
    type V = ErrV;

    open spec fn view(&self) -> ErrV {
        err_view(*self)
    }
}

/// How a statement finished: fell through normally, or hit a `return`
/// carrying the call's result.
#[derive(Debug, PartialEq)]
pub enum Flow {
    Normal,
    Return(Value),
}

/// Model of a `Flow`.
pub enum FlowV {
    Normal,
    Return(ValueV),
}

pub open spec fn flow_view(f: Flow) -> FlowV {
    match f {
        Flow::Normal => FlowV::Normal,
        Flow::Return(v) => FlowV::Return(value_view(v)),
    }
}

impl View for Flow {
    type V = FlowV;

    open spec fn view(&self) -> FlowV {
        flow_view(*self)
    }
}

/// Model of an expression outcome.
pub open spec fn value_res_view(r: Result<Value, RuntimeError>) -> Result<ValueV, ErrV> {
    match r {
        Result::Ok(v) => Result::Ok(value_view(v)),
        Result::Err(e) => Result::Err(err_view(e)),
    }
}

/// Model of a statement outcome.
pub open spec fn flow_res_view(r: Result<Flow, RuntimeError>) -> Result<FlowV, ErrV> {
    match r {
        Result::Ok(f) => Result::Ok(flow_view(f)),
        Result::Err(e) => Result::Err(err_view(e)),
    }
}

/// The shape of a model value.
pub open spec fn kind_of(v: ValueV) -> ValueKind {
    match v {
        ValueV::NoneVal => ValueKind::NoneKind,
        ValueV::Integer(_) => ValueKind::IntegerKind,
        ValueV::Boolean(_) => ValueKind::BooleanKind,
        ValueV::Str(_) => ValueKind::StringKind,
        ValueV::List(_) => ValueKind::ListKind,
        ValueV::Tuple(_) => ValueKind::TupleKind,
        ValueV::SetVal(_) => ValueKind::SetKind,
    }
}

} // verus!

verus! {

// ==========================================================================
// Frame operations, modelled over sequences of bindings
// ==========================================================================

/// Value of the first binding with this name, if any.
pub open spec fn s_lookup_var(vars: Seq<VariableV>, name: Seq<char>) -> Option<ValueV>
    decreases vars,
{
    if vars.len() == 0 {
        Option::None
    } else if vars.first().name == name {
        Option::Some(vars.first().value)
    } else {
        s_lookup_var(vars.drop_first(), name)
    }
}

/// Overwrite the first binding with this name in place, or append a new one.
pub open spec fn s_assign_var(vars: Seq<VariableV>, name: Seq<char>, value: ValueV) -> Seq<
    VariableV,
>
    decreases vars,
{
    if vars.len() == 0 {
        seq![VariableV { name, value }]
    } else if vars.first().name == name {
        seq![VariableV { name, value }] + vars.drop_first()
    } else {
        seq![vars.first()] + s_assign_var(vars.drop_first(), name, value)
    }
}

/// Drop every binding with this name.
pub open spec fn s_remove_var(vars: Seq<VariableV>, name: Seq<char>) -> Seq<VariableV>
    decreases vars,
{
    if vars.len() == 0 {
        Seq::empty()
    } else if vars.first().name == name {
        s_remove_var(vars.drop_first(), name)
    } else {
        seq![vars.first()] + s_remove_var(vars.drop_first(), name)
    }
}

/// First declared function with this name, if any.
pub open spec fn s_lookup_fun(funcs: Seq<FunctionV>, name: Seq<char>) -> Option<FunctionV>
    decreases funcs,
{
    if funcs.len() == 0 {
        Option::None
    } else if funcs.first().name == name {
        Option::Some(funcs.first())
    } else {
        s_lookup_fun(funcs.drop_first(), name)
    }
}

/// Register a declaration: the latest declaration with a given name wins,
/// overwriting in place, else appending.
pub open spec fn s_register_fun(funcs: Seq<FunctionV>, f: FunctionV) -> Seq<FunctionV>
    decreases funcs,
{
    if funcs.len() == 0 {
        seq![f]
    } else if funcs.first().name == f.name {
        seq![f] + funcs.drop_first()
    } else {
        seq![funcs.first()] + s_register_fun(funcs.drop_first(), f)
    }
}

} // verus!

verus! {

// ==========================================================================
// Deep copies
//
// Call frames clone the caller's declarations, and literal expressions are
// cloned out of the read-only AST, so copying must preserve the model.
// ==========================================================================

/// Deep copy of a value; the copy has the same model.
pub fn clone_value(v: &Value) -> (r: Value)
    ensures
        r@ == v@,
    decreases *v,
{
    match v {
        Value::NoneVal => Value::NoneVal,
        Value::Integer(i) => Value::Integer(*i),
        Value::Boolean(b) => Value::Boolean(*b),
        Value::Str(s) => Value::Str(s.clone()),
        Value::List(items) => Value::List(clone_values(items)),
        Value::Tuple(items) => Value::Tuple(clone_values(items)),
        Value::SetVal(items) => Value::SetVal(clone_values(items)),
    }
}

/// Deep copy of a sequence of values.
pub fn clone_values(items: &Vec<Value>) -> (r: Vec<Value>)
    ensures
        values_view(r@) == values_view(items@),
    decreases items@,
{
    broadcast use lemma_values_view_len, lemma_values_view_index;

    let mut out: Vec<Value> = Vec::new();
    let mut i: usize = 0;
    while i < items.len()
        invariant
            i <= items.len(),
            out@.len() == i,
            forall|j: int| 0 <= j < i ==> value_view(out@[j]) == value_view(items@[j]),
        decreases items@.len() - i,
    {
        out.push(clone_value(&items[i]));
        i += 1;
    }
    assert(values_view(out@) =~= values_view(items@));
    out
}

} // verus!

verus! {

/// Deep copy of an expression; the copy has the same model.
pub fn clone_expr(e: &Expression) -> (r: Expression)
    ensures
        r@ == e@,
    decreases *e,
{
    match e {
        Expression::Binary(l, op, r) => Expression::Binary(
            Box::new(clone_expr(l)),
            *op,
            Box::new(clone_expr(r)),
        ),
        Expression::Unary(op, inner) => Expression::Unary(*op, Box::new(clone_expr(inner))),
        Expression::Literal(v) => Expression::Literal(clone_value(v)),
        Expression::Variable(name) => Expression::Variable(name.clone()),
        Expression::FunctionCall(name, args) => Expression::FunctionCall(
            name.clone(),
            clone_exprs(args),
        ),
    }
}

/// Deep copy of an argument list.
pub fn clone_exprs(items: &Vec<Expression>) -> (r: Vec<Expression>)
    ensures
        exprs_view(r@) == exprs_view(items@),
    decreases items@,
{
    broadcast use lemma_exprs_view_len, lemma_exprs_view_index;

    let mut out: Vec<Expression> = Vec::new();
    let mut i: usize = 0;
    while i < items.len()
        invariant
            i <= items.len(),
            out@.len() == i,
            forall|j: int| 0 <= j < i ==> expr_view(out@[j]) == expr_view(items@[j]),
        decreases items@.len() - i,
    {
        out.push(clone_expr(&items[i]));
        i += 1;
    }
    assert(exprs_view(out@) =~= exprs_view(items@));
    out
}

/// Deep copy of a parameter list.
pub fn clone_params(items: &Vec<(String, Option<Value>)>) -> (r: Vec<(String, Option<Value>)>)
    ensures
        params_view(r@) == params_view(items@),
    decreases items@,
{
    broadcast use lemma_params_view_len, lemma_params_view_index;

    let mut out: Vec<(String, Option<Value>)> = Vec::new();
    let mut i: usize = 0;
    while i < items.len()
        invariant
            i <= items.len(),
            out@.len() == i,
            forall|j: int| 0 <= j < i ==> param_view(out@[j]) == param_view(items@[j]),
        decreases items@.len() - i,
    {
        let name = items[i].0.clone();
        let dflt = match &items[i].1 {
            Option::Some(v) => Option::Some(clone_value(v)),
            Option::None => Option::None,
        };
        out.push((name, dflt));
        i += 1;
    }
    assert(params_view(out@) =~= params_view(items@));
    out
}

/// Deep copy of a statement; the copy has the same model.
pub fn clone_stmt(s: &Statement) -> (r: Statement)
    ensures
        r@ == s@,
    decreases *s,
{
    match s {
        Statement::Assignment(name, e) => Statement::Assignment(name.clone(), clone_expr(e)),
        Statement::Expression(e) => Statement::Expression(clone_expr(e)),
        Statement::If(c, then_block, else_block) => Statement::If(
            clone_expr(c),
            clone_stmts(then_block),
            match else_block {
                Option::Some(b) => Option::Some(clone_stmts(b)),
                Option::None => Option::None,
            },
        ),
        Statement::While(c, body) => Statement::While(clone_expr(c), clone_stmts(body)),
        Statement::For(var, lo, hi, body) => Statement::For(
            var.clone(),
            clone_expr(lo),
            clone_expr(hi),
            clone_stmts(body),
        ),
        Statement::Function(f) => Statement::Function(clone_function(f)),
        Statement::Return(e) => Statement::Return(clone_expr(e)),
        Statement::Import(name) => Statement::Import(name.clone()),
    }
}

/// Deep copy of a statement list.
pub fn clone_stmts(items: &Vec<Statement>) -> (r: Vec<Statement>)
    ensures
        stmts_view(r@) == stmts_view(items@),
    decreases items@,
{
    broadcast use lemma_stmts_view_len, lemma_stmts_view_index;

    let mut out: Vec<Statement> = Vec::new();
    let mut i: usize = 0;
    while i < items.len()
        invariant
            i <= items.len(),
            out@.len() == i,
            forall|j: int| 0 <= j < i ==> stmt_view(out@[j]) == stmt_view(items@[j]),
        decreases items@.len() - i,
    {
        out.push(clone_stmt(&items[i]));
        i += 1;
    }
    assert(stmts_view(out@) =~= stmts_view(items@));
    out
}

/// Deep copy of a declared function; the copy has the same model.
pub fn clone_function(f: &Function) -> (r: Function)
    ensures
        r@ == f@,
    decreases *f,
{
    Function { name: f.name.clone(), params: clone_params(&f.params), body: clone_stmts(&f.body) }
}

/// Deep copy of the declared-function set of a frame.
pub fn clone_functions(items: &Vec<Function>) -> (r: Vec<Function>)
    ensures
        funcs_view(r@) == funcs_view(items@),
    decreases items@,
{
    broadcast use lemma_funcs_view_len, lemma_funcs_view_index;

    let mut out: Vec<Function> = Vec::new();
    let mut i: usize = 0;
    while i < items.len()
        invariant
            i <= items.len(),
            out@.len() == i,
            forall|j: int| 0 <= j < i ==> func_view(out@[j]) == func_view(items@[j]),
        decreases items@.len() - i,
    {
        out.push(clone_function(&items[i]));
        i += 1;
    }
    assert(funcs_view(out@) =~= funcs_view(items@));
    out
}

} // verus!

verus! {

// ==========================================================================
// Value equality and ordering
// ==========================================================================

/// Outcome of an ordered comparison.
#[derive(Debug, Clone, Copy, PartialEq, Eq, Structural)]
pub enum ValueOrder {
    Less,
    Same,
    Greater,
}

/// Lexicographic order on character sequences by code point.
pub open spec fn s_chars_cmp(a: Seq<char>, b: Seq<char>) -> ValueOrder
    decreases a.len(),
{
    if a.len() == 0 && b.len() == 0 {
        ValueOrder::Same
    } else if a.len() == 0 {
        ValueOrder::Less
    } else if b.len() == 0 {
        ValueOrder::Greater
    } else if (a.first() as u32) < (b.first() as u32) {
        ValueOrder::Less
    } else if (a.first() as u32) > (b.first() as u32) {
        ValueOrder::Greater
    } else {
        s_chars_cmp(a.drop_first(), b.drop_first())
    }
}

/// Natural ordering of values: defined between same-variant scalars
/// (unit values compare equal, integers numerically, booleans with false
/// before true, strings lexicographically); every cross-variant or compound
/// comparison is unordered.
pub open spec fn s_value_cmp(l: ValueV, r: ValueV) -> Option<ValueOrder> {
    match (l, r) {
        (ValueV::NoneVal, ValueV::NoneVal) => Option::Some(ValueOrder::Same),
        (ValueV::Integer(a), ValueV::Integer(b)) => Option::Some(
            if a < b {
                ValueOrder::Less
            } else if a > b {
                ValueOrder::Greater
            } else {
                ValueOrder::Same
            },
        ),
        (ValueV::Boolean(a), ValueV::Boolean(b)) => Option::Some(
            if !a && b {
                ValueOrder::Less
            } else if a && !b {
                ValueOrder::Greater
            } else {
                ValueOrder::Same
            },
        ),
        (ValueV::Str(a), ValueV::Str(b)) => Option::Some(s_chars_cmp(a, b)),
        _ => Option::None,
    }
}

/// Structural equality test; `true` exactly when the two models are equal.
pub fn value_eq(l: &Value, r: &Value) -> (res: bool)
    ensures
        res <==> (l@ == r@),
    decreases *l,
{
    match l {
        Value::NoneVal => matches!(r, Value::NoneVal),
        Value::Integer(a) => match r {
            Value::Integer(b) => *a == *b,
            _ => false,
        },
        Value::Boolean(a) => match r {
            Value::Boolean(b) => *a == *b,
            _ => false,
        },
        Value::Str(a) => match r {
            Value::Str(b) => a.eq(b),
            _ => false,
        },
        Value::List(a) => match r {
            Value::List(b) => values_eq(a, b),
            _ => false,
        },
        Value::Tuple(a) => match r {
            Value::Tuple(b) => values_eq(a, b),
            _ => false,
        },
        Value::SetVal(a) => match r {
            Value::SetVal(b) => values_eq(a, b),
            _ => false,
        },
    }
}

/// Elementwise structural equality of value sequences.
pub fn values_eq(a: &Vec<Value>, b: &Vec<Value>) -> (res: bool)
    ensures
        res <==> (values_view(a@) == values_view(b@)),
    decreases a@,
{
    broadcast use lemma_values_view_len, lemma_values_view_index;

    if a.len() != b.len() {
        proof {
            lemma_values_view_len(a@);
            lemma_values_view_len(b@);
        }
        return false;
    }
    let mut i: usize = 0;
    while i < a.len()
        invariant
            a@.len() == b@.len(),
            i <= a.len(),
            forall|j: int| 0 <= j < i ==> value_view(a@[j]) == value_view(b@[j]),
        decreases a@.len() - i,
    {
        if !value_eq(&a[i], &b[i]) {
            proof {
                lemma_values_view_len(a@);
                lemma_values_view_len(b@);
                lemma_values_view_index(a@, i as int);
                lemma_values_view_index(b@, i as int);
                assert(values_view(a@)[i as int] != values_view(b@)[i as int]);
            }
            return false;
        }
        i += 1;
    }
    assert(values_view(a@) =~= values_view(b@));
    true
}

/// Ordered comparison of two strings, lexicographic by code point.
pub fn string_cmp(a: &String, b: &String) -> (res: ValueOrder)
    ensures
        res == s_chars_cmp(a@, b@),
{
    let a_len = a.as_str().unicode_len();
    let b_len = b.as_str().unicode_len();
    proof {
        assert(a@.skip(0) =~= a@);
        assert(b@.skip(0) =~= b@);
    }
    let mut i: usize = 0;
    while i < a_len && i < b_len
        invariant
            a_len == a@.len(),
            b_len == b@.len(),
            i <= a_len,
            i <= b_len,
            s_chars_cmp(a@, b@) == s_chars_cmp(a@.skip(i as int), b@.skip(i as int)),
        decreases a_len - i,
    {
        let ca = a.as_str().get_char(i);
        let cb = b.as_str().get_char(i);
        let ghost sa = a@.skip(i as int);
        let ghost sb = b@.skip(i as int);
        proof {
            assert(sa.first() == a@[i as int]);
            assert(sb.first() == b@[i as int]);
            assert(sa.drop_first() =~= a@.skip(i as int + 1));
            assert(sb.drop_first() =~= b@.skip(i as int + 1));
        }
        if (ca as u32) < (cb as u32) {
            return ValueOrder::Less;
        }
        if (ca as u32) > (cb as u32) {
            return ValueOrder::Greater;
        }
        i += 1;
    }
    proof {
        assert(a@.skip(i as int).len() == 0 || b@.skip(i as int).len() == 0);
    }
    if i < b_len {
        ValueOrder::Less
    } else if i < a_len {
        ValueOrder::Greater
    } else {
        ValueOrder::Same
    }
}

/// Ordered comparison of two values, as `s_value_cmp` defines it.
pub fn value_cmp(l: &Value, r: &Value) -> (res: Option<ValueOrder>)
    ensures
        res == s_value_cmp(l@, r@),
{
    match (l, r) {
        (Value::NoneVal, Value::NoneVal) => Option::Some(ValueOrder::Same),
        (Value::Integer(a), Value::Integer(b)) => Option::Some(
            if *a < *b {
                ValueOrder::Less
            } else if *a > *b {
                ValueOrder::Greater
            } else {
                ValueOrder::Same
            },
        ),
        (Value::Boolean(a), Value::Boolean(b)) => Option::Some(
            if !*a && *b {
                ValueOrder::Less
            } else if *a && !*b {
                ValueOrder::Greater
            } else {
                ValueOrder::Same
            },
        ),
        (Value::Str(a), Value::Str(b)) => Option::Some(string_cmp(a, b)),
        _ => Option::None,
    }
}

} // verus!

verus! {

// ==========================================================================
// Operator semantics
// ==========================================================================

/// Meaning of a binary operator applied to two evaluated operands.
///
/// Addition is defined for two integers and for two strings (concatenation);
/// subtraction and multiplication for two integers; division and modulo for
/// two integers with a zero divisor reported as an arithmetic error;
/// equality structurally with cross-variant operands unequal; the ordered
/// comparisons by the natural order of same-variant scalars, with every
/// unordered comparison false; logical and/or bitwise over two integers.
/// Integer overflow is reported as an arithmetic error, never wrapped.
pub open spec fn s_binop(op: BinaryOperator, l: ValueV, r: ValueV) -> Result<ValueV, ErrV> {
    match op {
        BinaryOperator::Add => match (l, r) {
            (ValueV::Integer(a), ValueV::Integer(b)) => match a.checked_add(b) {
                Option::Some(c) => Result::Ok(ValueV::Integer(c)),
                Option::None => Result::Err(ErrV::ArithmeticError(ArithKind::Overflow)),
            },
            (ValueV::Str(a), ValueV::Str(b)) => Result::Ok(ValueV::Str(a + b)),
            _ => Result::Err(
                ErrV::TypeError(OpKind::Binary(op), kind_of(l), Option::Some(kind_of(r))),
            ),
        },
        BinaryOperator::Subtract => match (l, r) {
            (ValueV::Integer(a), ValueV::Integer(b)) => match a.checked_sub(b) {
                Option::Some(c) => Result::Ok(ValueV::Integer(c)),
                Option::None => Result::Err(ErrV::ArithmeticError(ArithKind::Overflow)),
            },
            _ => Result::Err(
                ErrV::TypeError(OpKind::Binary(op), kind_of(l), Option::Some(kind_of(r))),
            ),
        },
        BinaryOperator::Multiply => match (l, r) {
            (ValueV::Integer(a), ValueV::Integer(b)) => match a.checked_mul(b) {
                Option::Some(c) => Result::Ok(ValueV::Integer(c)),
                Option::None => Result::Err(ErrV::ArithmeticError(ArithKind::Overflow)),
            },
            _ => Result::Err(
                ErrV::TypeError(OpKind::Binary(op), kind_of(l), Option::Some(kind_of(r))),
            ),
        },
        BinaryOperator::Divide => match (l, r) {
            (ValueV::Integer(a), ValueV::Integer(b)) => if b == 0 {
                Result::Err(ErrV::ArithmeticError(ArithKind::DivisionByZero))
            } else {
                match a.checked_div(b) {
                    Option::Some(c) => Result::Ok(ValueV::Integer(c)),
                    Option::None => Result::Err(ErrV::ArithmeticError(ArithKind::Overflow)),
                }
            },
            _ => Result::Err(
                ErrV::TypeError(OpKind::Binary(op), kind_of(l), Option::Some(kind_of(r))),
            ),
        },
        BinaryOperator::Modulo => match (l, r) {
            (ValueV::Integer(a), ValueV::Integer(b)) => if b == 0 {
                Result::Err(ErrV::ArithmeticError(ArithKind::DivisionByZero))
            } else {
                match a.checked_rem(b) {
                    Option::Some(c) => Result::Ok(ValueV::Integer(c)),
                    Option::None => Result::Err(ErrV::ArithmeticError(ArithKind::Overflow)),
                }
            },
            _ => Result::Err(
                ErrV::TypeError(OpKind::Binary(op), kind_of(l), Option::Some(kind_of(r))),
            ),
        },
        BinaryOperator::Equal => Result::Ok(ValueV::Boolean(l == r)),
        BinaryOperator::NotEqual => Result::Ok(ValueV::Boolean(l != r)),
        BinaryOperator::LessThan => Result::Ok(
            ValueV::Boolean(s_value_cmp(l, r) == Option::Some(ValueOrder::Less)),
        ),
        BinaryOperator::GreaterThan => Result::Ok(
            ValueV::Boolean(s_value_cmp(l, r) == Option::Some(ValueOrder::Greater)),
        ),
        BinaryOperator::LessThanOrEqual => Result::Ok(
            ValueV::Boolean(
                s_value_cmp(l, r) == Option::Some(ValueOrder::Less) || s_value_cmp(l, r)
                    == Option::Some(ValueOrder::Same),
            ),
        ),
        BinaryOperator::GreaterThanOrEqual => Result::Ok(
            ValueV::Boolean(
                s_value_cmp(l, r) == Option::Some(ValueOrder::Greater) || s_value_cmp(l, r)
                    == Option::Some(ValueOrder::Same),
            ),
        ),
        BinaryOperator::And => match (l, r) {
            (ValueV::Integer(a), ValueV::Integer(b)) => Result::Ok(ValueV::Integer(a & b)),
            _ => Result::Err(
                ErrV::TypeError(OpKind::Binary(op), kind_of(l), Option::Some(kind_of(r))),
            ),
        },
        BinaryOperator::Or => match (l, r) {
            (ValueV::Integer(a), ValueV::Integer(b)) => Result::Ok(ValueV::Integer(a | b)),
            _ => Result::Err(
                ErrV::TypeError(OpKind::Binary(op), kind_of(l), Option::Some(kind_of(r))),
            ),
        },
    }
}

/// Meaning of a unary operator: `not` on a boolean, minus on an integer.
pub open spec fn s_unop(op: UnaryOperator, v: ValueV) -> Result<ValueV, ErrV> {
    match op {
        UnaryOperator::Not => match v {
            ValueV::Boolean(b) => Result::Ok(ValueV::Boolean(!b)),
            _ => Result::Err(ErrV::TypeError(OpKind::Unary(op), kind_of(v), Option::None)),
        },
        UnaryOperator::Minus => match v {
            ValueV::Integer(a) => match (0i64).checked_sub(a) {
                Option::Some(c) => Result::Ok(ValueV::Integer(c)),
                Option::None => Result::Err(ErrV::ArithmeticError(ArithKind::Overflow)),
            },
            _ => Result::Err(ErrV::TypeError(OpKind::Unary(op), kind_of(v), Option::None)),
        },
    }
}

/// The shape of a value, for error reports.
pub fn kind(v: &Value) -> (k: ValueKind)
    ensures
        k == kind_of(v@),
{
    match v {
        Value::NoneVal => ValueKind::NoneKind,
        Value::Integer(_) => ValueKind::IntegerKind,
        Value::Boolean(_) => ValueKind::BooleanKind,
        Value::Str(_) => ValueKind::StringKind,
        Value::List(_) => ValueKind::ListKind,
        Value::Tuple(_) => ValueKind::TupleKind,
        Value::SetVal(_) => ValueKind::SetKind,
    }
}

/// Apply a binary operator to two evaluated operands.
#[verifier::rlimit(100)]
#[verifier::spinoff_prover]
pub fn apply_binop(op: BinaryOperator, l: Value, r: Value) -> (res: Result<Value, RuntimeError>)
    ensures
        value_res_view(res) == s_binop(op, l@, r@),
{
    match op {
        BinaryOperator::Add => match (l, r) {
            (Value::Integer(a), Value::Integer(b)) => match a.checked_add(b) {
                Option::Some(c) => Result::Ok(Value::Integer(c)),
                Option::None => Result::Err(RuntimeError::ArithmeticError(ArithKind::Overflow)),
            },
            (Value::Str(a), Value::Str(b)) => Result::Ok(Value::Str(a.concat(b.as_str()))),
            (lv, rv) => Result::Err(
                RuntimeError::TypeError(
                    OpKind::Binary(op),
                    kind(&lv),
                    Option::Some(kind(&rv)),
                ),
            ),
        },
        BinaryOperator::Subtract => match (l, r) {
            (Value::Integer(a), Value::Integer(b)) => match a.checked_sub(b) {
                Option::Some(c) => Result::Ok(Value::Integer(c)),
                Option::None => Result::Err(RuntimeError::ArithmeticError(ArithKind::Overflow)),
            },
            (lv, rv) => Result::Err(
                RuntimeError::TypeError(
                    OpKind::Binary(op),
                    kind(&lv),
                    Option::Some(kind(&rv)),
                ),
            ),
        },
        BinaryOperator::Multiply => match (l, r) {
            (Value::Integer(a), Value::Integer(b)) => match a.checked_mul(b) {
                Option::Some(c) => Result::Ok(Value::Integer(c)),
                Option::None => Result::Err(RuntimeError::ArithmeticError(ArithKind::Overflow)),
            },
            (lv, rv) => Result::Err(
                RuntimeError::TypeError(
                    OpKind::Binary(op),
                    kind(&lv),
                    Option::Some(kind(&rv)),
                ),
            ),
        },
        BinaryOperator::Divide => match (l, r) {
            (Value::Integer(a), Value::Integer(b)) => if b == 0 {
                Result::Err(RuntimeError::ArithmeticError(ArithKind::DivisionByZero))
            } else {
                match a.checked_div(b) {
                    Option::Some(c) => Result::Ok(Value::Integer(c)),
                    Option::None => Result::Err(
                        RuntimeError::ArithmeticError(ArithKind::Overflow),
                    ),
                }
            },
            (lv, rv) => Result::Err(
                RuntimeError::TypeError(
                    OpKind::Binary(op),
                    kind(&lv),
                    Option::Some(kind(&rv)),
                ),
            ),
        },
        BinaryOperator::Modulo => match (l, r) {
            (Value::Integer(a), Value::Integer(b)) => if b == 0 {
                Result::Err(RuntimeError::ArithmeticError(ArithKind::DivisionByZero))
            } else {
                match a.checked_rem(b) {
                    Option::Some(c) => Result::Ok(Value::Integer(c)),
                    Option::None => Result::Err(
                        RuntimeError::ArithmeticError(ArithKind::Overflow),
                    ),
                }
            },
            (lv, rv) => Result::Err(
                RuntimeError::TypeError(
                    OpKind::Binary(op),
                    kind(&lv),
                    Option::Some(kind(&rv)),
                ),
            ),
        },
        BinaryOperator::Equal => Result::Ok(Value::Boolean(value_eq(&l, &r))),
        BinaryOperator::NotEqual => Result::Ok(Value::Boolean(!value_eq(&l, &r))),
        BinaryOperator::LessThan => Result::Ok(
            Value::Boolean(matches!(value_cmp(&l, &r), Option::Some(ValueOrder::Less))),
        ),
        BinaryOperator::GreaterThan => Result::Ok(
            Value::Boolean(matches!(value_cmp(&l, &r), Option::Some(ValueOrder::Greater))),
        ),
        BinaryOperator::LessThanOrEqual => Result::Ok(
            Value::Boolean(
                matches!(
                    value_cmp(&l, &r),
                    Option::Some(ValueOrder::Less) | Option::Some(ValueOrder::Same)
                ),
            ),
        ),
        BinaryOperator::GreaterThanOrEqual => Result::Ok(
            Value::Boolean(
                matches!(
                    value_cmp(&l, &r),
                    Option::Some(ValueOrder::Greater) | Option::Some(ValueOrder::Same)
                ),
            ),
        ),
        BinaryOperator::And => match (l, r) {
            (Value::Integer(a), Value::Integer(b)) => Result::Ok(Value::Integer(a & b)),
            (lv, rv) => Result::Err(
                RuntimeError::TypeError(
                    OpKind::Binary(op),
                    kind(&lv),
                    Option::Some(kind(&rv)),
                ),
            ),
        },
        BinaryOperator::Or => match (l, r) {
            (Value::Integer(a), Value::Integer(b)) => Result::Ok(Value::Integer(a | b)),
            (lv, rv) => Result::Err(
                RuntimeError::TypeError(
                    OpKind::Binary(op),
                    kind(&lv),
                    Option::Some(kind(&rv)),
                ),
            ),
        },
    }
}

/// Apply a unary operator to an evaluated operand.
pub fn apply_unop(op: UnaryOperator, v: Value) -> (res: Result<Value, RuntimeError>)
    ensures
        value_res_view(res) == s_unop(op, v@),
{
    match op {
        UnaryOperator::Not => match v {
            Value::Boolean(b) => Result::Ok(Value::Boolean(!b)),
            other => Result::Err(
                RuntimeError::TypeError(OpKind::Unary(op), kind(&other), Option::None),
            ),
        },
        UnaryOperator::Minus => match v {
            Value::Integer(a) => match (0i64).checked_sub(a) {
                Option::Some(c) => Result::Ok(Value::Integer(c)),
                Option::None => Result::Err(RuntimeError::ArithmeticError(ArithKind::Overflow)),
            },
            other => Result::Err(
                RuntimeError::TypeError(OpKind::Unary(op), kind(&other), Option::None),
            ),
        },
    }
}

} // verus!

verus! {

// ==========================================================================
// The mathematical evaluator
//
// Step-indexed: every recursive step spends one unit of the budget, so the
// definitions terminate on any program, and a hosting program cancels a
// runaway evaluation by choosing the budget.  An exhausted budget surfaces
// as `Cancelled`, checked at every expression, statement and loop boundary.
// ==========================================================================

/// Evaluate a list of argument expressions, left to right, in the caller's
/// frame.
pub open spec fn s_eval_exprs(env: EnvV, es: Seq<ExpressionV>, fuel: nat) -> Result<
    Seq<ValueV>,
    ErrV,
>
    decreases fuel,
{
    if fuel == 0 {
        Result::Err(ErrV::Cancelled)
    } else if es.len() == 0 {
        Result::Ok(Seq::empty())
    } else {
        match s_eval_expr(env, es.first(), (fuel - 1) as nat) {
            Result::Ok(v) => match s_eval_exprs(env, es.drop_first(), (fuel - 1) as nat) {
                Result::Ok(rest) => Result::Ok(seq![v] + rest),
                Result::Err(e) => Result::Err(e),
            },
            Result::Err(e) => Result::Err(e),
        }
    }
}

/// Bind arguments to parameters by position into a fresh frame; unmatched
/// trailing parameters fall back to their declared default, and a parameter
/// with neither argument nor default is an arity error.
pub open spec fn s_bind_params(
    bound: Seq<VariableV>,
    params: Seq<(Seq<char>, Option<ValueV>)>,
    args: Seq<ValueV>,
    fname: Seq<char>,
    want: usize,
    got: usize,
) -> Result<Seq<VariableV>, ErrV>
    decreases params,
{
    if params.len() == 0 {
        Result::Ok(bound)
    } else {
        let (pname, dflt) = params.first();
        if args.len() > 0 {
            s_bind_params(
                s_assign_var(bound, pname, args.first()),
                params.drop_first(),
                args.drop_first(),
                fname,
                want,
                got,
            )
        } else {
            match dflt {
                Option::Some(d) => s_bind_params(
                    s_assign_var(bound, pname, d),
                    params.drop_first(),
                    args,
                    fname,
                    want,
                    got,
                ),
                Option::None => Result::Err(ErrV::ArityError(fname, want, got)),
            }
        }
    }
}

/// Call a declared function: bind arguments into a fresh frame seeded only
/// with the bound parameters, share the caller's declarations, run the body,
/// and let the first `return` supply the result; a body that falls through
/// yields the unit value.  The caller's own frame is never touched.
pub open spec fn s_call(env: EnvV, f: FunctionV, args: Seq<ValueV>, fuel: nat) -> Result<
    ValueV,
    ErrV,
>
    decreases fuel,
{
    if fuel == 0 {
        Result::Err(ErrV::Cancelled)
    } else if args.len() > f.params.len() {
        Result::Err(ErrV::ArityError(f.name, f.params.len() as usize, args.len() as usize))
    } else {
        match s_bind_params(
            Seq::empty(),
            f.params,
            args,
            f.name,
            f.params.len() as usize,
            args.len() as usize,
        ) {
            Result::Err(e) => Result::Err(e),
            Result::Ok(locals) => {
                let call_env = EnvV { vars: locals, funcs: env.funcs };
                let outcome = s_eval_stmts(call_env, f.body, (fuel - 1) as nat);
                match outcome.1 {
                    Result::Ok(FlowV::Normal) => Result::Ok(ValueV::NoneVal),
                    Result::Ok(FlowV::Return(v)) => Result::Ok(v),
                    Result::Err(e) => Result::Err(e),
                }
            },
        }
    }
}

/// Evaluate one expression in a frame.  Expression evaluation never changes
/// the frame: calls run in their own frame.
pub open spec fn s_eval_expr(env: EnvV, e: ExpressionV, fuel: nat) -> Result<ValueV, ErrV>
    decreases fuel,
{
    if fuel == 0 {
        Result::Err(ErrV::Cancelled)
    } else {
        match e {
            ExpressionV::Literal(v) => Result::Ok(v),
            ExpressionV::Variable(name) => match s_lookup_var(env.vars, name) {
                Option::Some(v) => Result::Ok(v),
                Option::None => Result::Err(ErrV::NameError(name)),
            },
            ExpressionV::Binary(l, op, r) => match s_eval_expr(env, *l, (fuel - 1) as nat) {
                Result::Ok(lv) => match s_eval_expr(env, *r, (fuel - 1) as nat) {
                    Result::Ok(rv) => s_binop(op, lv, rv),
                    Result::Err(e2) => Result::Err(e2),
                },
                Result::Err(e1) => Result::Err(e1),
            },
            ExpressionV::Unary(op, inner) => match s_eval_expr(env, *inner, (fuel - 1) as nat) {
                Result::Ok(v) => s_unop(op, v),
                Result::Err(e1) => Result::Err(e1),
            },
            ExpressionV::FunctionCall(name, args) => match s_lookup_fun(env.funcs, name) {
                Option::None => Result::Err(ErrV::NameError(name)),
                Option::Some(f) => match s_eval_exprs(env, args, (fuel - 1) as nat) {
                    Result::Ok(argv) => s_call(env, f, argv, (fuel - 1) as nat),
                    Result::Err(e1) => Result::Err(e1),
                },
            },
        }
    }
}

/// Run the ascending inclusive integer range of a `for` statement, rebinding
/// the loop variable fresh each iteration; the binding is dropped once the
/// loop finishes or returns, and is retained as produced when an iteration
/// fails.
pub open spec fn s_eval_for(
    env: EnvV,
    var: Seq<char>,
    lo: i64,
    hi: i64,
    body: Seq<StatementV>,
    fuel: nat,
) -> (EnvV, Result<FlowV, ErrV>)
    decreases fuel,
{
    if fuel == 0 {
        (env, Result::Err(ErrV::Cancelled))
    } else if lo > hi {
        (env, Result::Ok(FlowV::Normal))
    } else {
        let env1 = EnvV { vars: s_assign_var(env.vars, var, ValueV::Integer(lo)), funcs: env.funcs };
        let outcome = s_eval_stmts(env1, body, (fuel - 1) as nat);
        let env2 = outcome.0;
        match outcome.1 {
            Result::Err(e) => (env2, Result::Err(e)),
            Result::Ok(FlowV::Return(v)) => (
                EnvV { vars: s_remove_var(env2.vars, var), funcs: env2.funcs },
                Result::Ok(FlowV::Return(v)),
            ),
            Result::Ok(FlowV::Normal) => if lo == hi {
                (
                    EnvV { vars: s_remove_var(env2.vars, var), funcs: env2.funcs },
                    Result::Ok(FlowV::Normal),
                )
            } else {
                s_eval_for(env2, var, (lo + 1) as i64, hi, body, (fuel - 1) as nat)
            },
        }
    }
}

/// Evaluate one statement against a frame, yielding the changed frame and
/// how the statement finished.  A failing statement keeps every effect the
/// preceding evaluation already applied.
pub open spec fn s_eval_stmt(env: EnvV, s: StatementV, fuel: nat) -> (EnvV, Result<FlowV, ErrV>)
    decreases fuel,
{
    if fuel == 0 {
        (env, Result::Err(ErrV::Cancelled))
    } else {
        let f2 = (fuel - 1) as nat;
        match s {
            StatementV::Import(_) => (env, Result::Ok(FlowV::Normal)),
            StatementV::Assignment(name, e) => match s_eval_expr(env, e, f2) {
                Result::Ok(v) => (
                    EnvV { vars: s_assign_var(env.vars, name, v), funcs: env.funcs },
                    Result::Ok(FlowV::Normal),
                ),
                Result::Err(er) => (env, Result::Err(er)),
            },
            StatementV::Expression(e) => match s_eval_expr(env, e, f2) {
                Result::Ok(_) => (env, Result::Ok(FlowV::Normal)),
                Result::Err(er) => (env, Result::Err(er)),
            },
            StatementV::If(c, then_block, else_block) => match s_eval_expr(env, c, f2) {
                Result::Err(er) => (env, Result::Err(er)),
                Result::Ok(ValueV::Boolean(true)) => s_eval_stmts(env, then_block, f2),
                Result::Ok(ValueV::Boolean(false)) => match else_block {
                    Option::Some(b) => s_eval_stmts(env, b, f2),
                    Option::None => (env, Result::Ok(FlowV::Normal)),
                },
                Result::Ok(other) => (
                    env,
                    Result::Err(
                        ErrV::TypeError(OpKind::Condition, kind_of(other), Option::None),
                    ),
                ),
            },
            StatementV::While(c, body) => match s_eval_expr(env, c, f2) {
                Result::Err(er) => (env, Result::Err(er)),
                Result::Ok(ValueV::Boolean(false)) => (env, Result::Ok(FlowV::Normal)),
                Result::Ok(ValueV::Boolean(true)) => {
                    let outcome = s_eval_stmts(env, body, f2);
                    match outcome.1 {
                        Result::Ok(FlowV::Normal) => s_eval_stmt(
                            outcome.0,
                            StatementV::While(c, body),
                            f2,
                        ),
                        _ => outcome,
                    }
                },
                Result::Ok(other) => (
                    env,
                    Result::Err(
                        ErrV::TypeError(OpKind::Condition, kind_of(other), Option::None),
                    ),
                ),
            },
            StatementV::For(var, lo_e, hi_e, body) => match s_eval_expr(env, lo_e, f2) {
                Result::Err(er) => (env, Result::Err(er)),
                Result::Ok(lo_v) => match s_eval_expr(env, hi_e, f2) {
                    Result::Err(er) => (env, Result::Err(er)),
                    Result::Ok(hi_v) => match (lo_v, hi_v) {
                        (ValueV::Integer(lo), ValueV::Integer(hi)) => s_eval_for(
                            env,
                            var,
                            lo,
                            hi,
                            body,
                            f2,
                        ),
                        _ => (
                            env,
                            Result::Err(
                                ErrV::TypeError(
                                    OpKind::ForRange,
                                    kind_of(lo_v),
                                    Option::Some(kind_of(hi_v)),
                                ),
                            ),
                        ),
                    },
                },
            },
            StatementV::Function(f) => (
                EnvV { vars: env.vars, funcs: s_register_fun(env.funcs, f) },
                Result::Ok(FlowV::Normal),
            ),
            StatementV::Return(e) => match s_eval_expr(env, e, f2) {
                Result::Ok(v) => (env, Result::Ok(FlowV::Return(v))),
                Result::Err(er) => (env, Result::Err(er)),
            },
        }
    }
}

/// Evaluate a statement list in order; the first `return` or error stops the
/// remaining statements.
pub open spec fn s_eval_stmts(env: EnvV, ss: Seq<StatementV>, fuel: nat) -> (
    EnvV,
    Result<FlowV, ErrV>,
)
    decreases fuel,
{
    if fuel == 0 {
        (env, Result::Err(ErrV::Cancelled))
    } else if ss.len() == 0 {
        (env, Result::Ok(FlowV::Normal))
    } else {
        let outcome = s_eval_stmt(env, ss.first(), (fuel - 1) as nat);
        match outcome.1 {
            Result::Ok(FlowV::Normal) => s_eval_stmts(outcome.0, ss.drop_first(), (fuel - 1) as nat),
            _ => outcome,
        }
    }
}

} // verus!

verus! {

// ==========================================================================
// Executable frame operations
// ==========================================================================

proof fn lemma_lookup_var_skip(vars: Seq<VariableV>, name: Seq<char>, k: int)
    requires
        0 <= k <= vars.len(),
        forall|j: int| 0 <= j < k ==> vars[j].name != name,
    ensures
        s_lookup_var(vars, name) == s_lookup_var(vars.skip(k), name),
    decreases k,
{
    if k == 0 {
        assert(vars.skip(0) =~= vars);
    } else {
        lemma_lookup_var_skip(vars, name, k - 1);
        assert(vars.skip(k - 1).first() == vars[k - 1]);
        assert(vars.skip(k - 1).drop_first() =~= vars.skip(k));
    }
}

proof fn lemma_assign_var_skip(vars: Seq<VariableV>, name: Seq<char>, value: ValueV, k: int)
    requires
        0 <= k <= vars.len(),
        forall|j: int| 0 <= j < k ==> vars[j].name != name,
    ensures
        s_assign_var(vars, name, value) == vars.take(k) + s_assign_var(vars.skip(k), name, value),
    decreases k,
{
    if k == 0 {
        assert(vars.skip(0) =~= vars);
        assert(vars.take(0) + s_assign_var(vars, name, value) =~= s_assign_var(
            vars,
            name,
            value,
        ));
    } else {
        lemma_assign_var_skip(vars, name, value, k - 1);
        assert(vars.skip(k - 1).first() == vars[k - 1]);
        assert(vars.skip(k - 1).drop_first() =~= vars.skip(k));
        assert(s_assign_var(vars.skip(k - 1), name, value) == seq![vars[k - 1]] + s_assign_var(
            vars.skip(k),
            name,
            value,
        ));
        assert(vars.take(k - 1) + (seq![vars[k - 1]] + s_assign_var(vars.skip(k), name, value))
            =~= vars.take(k) + s_assign_var(vars.skip(k), name, value));
    }
}

proof fn lemma_lookup_fun_skip(funcs: Seq<FunctionV>, name: Seq<char>, k: int)
    requires
        0 <= k <= funcs.len(),
        forall|j: int| 0 <= j < k ==> funcs[j].name != name,
    ensures
        s_lookup_fun(funcs, name) == s_lookup_fun(funcs.skip(k), name),
    decreases k,
{
    if k == 0 {
        assert(funcs.skip(0) =~= funcs);
    } else {
        lemma_lookup_fun_skip(funcs, name, k - 1);
        assert(funcs.skip(k - 1).first() == funcs[k - 1]);
        assert(funcs.skip(k - 1).drop_first() =~= funcs.skip(k));
    }
}

proof fn lemma_register_fun_skip(funcs: Seq<FunctionV>, f: FunctionV, k: int)
    requires
        0 <= k <= funcs.len(),
        forall|j: int| 0 <= j < k ==> funcs[j].name != f.name,
    ensures
        s_register_fun(funcs, f) == funcs.take(k) + s_register_fun(funcs.skip(k), f),
    decreases k,
{
    if k == 0 {
        assert(funcs.skip(0) =~= funcs);
        assert(funcs.take(0) + s_register_fun(funcs, f) =~= s_register_fun(funcs, f));
    } else {
        lemma_register_fun_skip(funcs, f, k - 1);
        assert(funcs.skip(k - 1).first() == funcs[k - 1]);
        assert(funcs.skip(k - 1).drop_first() =~= funcs.skip(k));
        assert(s_register_fun(funcs.skip(k - 1), f) == seq![funcs[k - 1]] + s_register_fun(
            funcs.skip(k),
            f,
        ));
        assert(funcs.take(k - 1) + (seq![funcs[k - 1]] + s_register_fun(funcs.skip(k), f))
            =~= funcs.take(k) + s_register_fun(funcs.skip(k), f));
    }
}

/// Index of the first binding with this name, if any.
fn find_var(vars: &Vec<Variable>, name: &String) -> (res: Option<usize>)
    ensures
        match res {
            Option::Some(k) => k < vars@.len() && vars_view(vars@)[k as int].name == name@
                && s_lookup_var(vars_view(vars@), name@) == Option::Some(
                vars_view(vars@)[k as int].value,
            ),
            Option::None => s_lookup_var(vars_view(vars@), name@) == Option::<ValueV>::None,
        },
{
    broadcast use lemma_vars_view_len, lemma_vars_view_index;

    let ghost sv = vars_view(vars@);
    proof {
        lemma_vars_view_all(vars@);
    }
    let mut i: usize = 0;
    while i < vars.len()
        invariant
            i <= vars@.len(),
            sv == vars_view(vars@),
            sv.len() == vars@.len(),
            forall|j: int| 0 <= j < i ==> sv[j].name != name@,
        decreases vars@.len() - i,
    {
        proof {
            lemma_vars_view_all(vars@);
        }
        if vars[i].name.eq(name) {
            proof {
                lemma_lookup_var_skip(sv, name@, i as int);
                assert(sv.skip(i as int).first() == sv[i as int]);
            }
            return Option::Some(i);
        }
        i += 1;
    }
    proof {
        lemma_lookup_var_skip(sv, name@, vars@.len() as int);
        assert(sv.skip(sv.len() as int) =~= Seq::<VariableV>::empty());
    }
    Option::None
}

/// Overwrite the first binding with this name in place, or append a new one.
fn assign_var(vars: &mut Vec<Variable>, name: &String, value: Value)
    ensures
        vars_view(final(vars)@) == s_assign_var(vars_view(old(vars)@), name@, value@),
{
    broadcast use lemma_vars_view_len, lemma_vars_view_index;

    let ghost sv = vars_view(vars@);
    let ghost target = VariableV { name: name@, value: value@ };
    proof {
        lemma_vars_view_all(vars@);
    }
    let mut i: usize = 0;
    while i < vars.len()
        invariant
            i <= vars@.len(),
            sv == vars_view(vars@),
            sv == vars_view(old(vars)@),
            sv.len() == vars@.len(),
            value@ == target.value,
            target.name == name@,
            forall|j: int| 0 <= j < i ==> sv[j].name != name@,
        decreases vars@.len() - i,
    {
        proof {
            lemma_vars_view_all(vars@);
        }
        if vars[i].name.eq(name) {
            proof {
                lemma_assign_var_skip(sv, name@, value@, i as int);
                assert(sv.skip(i as int).first() == sv[i as int]);
                assert(sv.skip(i as int).drop_first() =~= sv.skip(i as int + 1));
            }
            let ghost pre = vars@;
            vars[i].value = value;
            proof {
                lemma_vars_view_all(vars@);
                assert(vars@.len() == pre.len());
                assert(vars@[i as int].name == pre[i as int].name);
                assert(vars@[i as int].value == value);
                assert(forall|j: int| 0 <= j < pre.len() && j != i ==> vars@[j] == pre[j]);
                assert(pre[i as int].name@ == name@);
                assert(vars@[i as int].name@ == name@);
                assert(value_view(vars@[i as int].value) == value@);
                assert(var_view(vars@[i as int]) == target);
                assert(vars_view(vars@) =~= sv.take(i as int) + (seq![target] + sv.skip(
                    i as int + 1,
                )));
                assert(s_assign_var(sv, name@, target.value) == sv.take(i as int) + (seq![target]
                    + sv.skip(i as int + 1)));
                assert(sv == vars_view(old(vars)@));
                assert(vars_view(vars@) == s_assign_var(vars_view(old(vars)@), name@, target.value));
            }
            return ;
        }
        i += 1;
    }
    proof {
        lemma_assign_var_skip(sv, name@, value@, sv.len() as int);
        assert(sv.skip(sv.len() as int) =~= Seq::<VariableV>::empty());
        assert(sv.take(sv.len() as int) =~= sv);
    }
    vars.push(Variable { name: name.clone(), value });
    proof {
        lemma_vars_view_all(vars@);
        assert(vars_view(vars@) =~= sv + seq![target]);
    }
}

/// Drop every binding with this name.
fn remove_var(vars: &mut Vec<Variable>, name: &String)
    ensures
        vars_view(final(vars)@) == s_remove_var(vars_view(old(vars)@), name@),
{
    broadcast use lemma_vars_view_len, lemma_vars_view_index;

    let ghost orig = vars_view(old(vars)@);
    let mut i: usize = 0;
    proof {
        lemma_vars_view_all(vars@);
        assert(vars_view(vars@).subrange(0, 0) + s_remove_var(
            vars_view(vars@).subrange(0, vars_view(vars@).len() as int),
            name@,
        ) =~= s_remove_var(vars_view(vars@).subrange(0, vars_view(vars@).len() as int), name@));
        assert(vars_view(vars@).subrange(0, vars_view(vars@).len() as int) =~= vars_view(vars@));
    }
    while i < vars.len()
        invariant
            i <= vars@.len(),
            s_remove_var(orig, name@) == vars_view(vars@).subrange(0, i as int) + s_remove_var(
                vars_view(vars@).subrange(i as int, vars_view(vars@).len() as int),
                name@,
            ),
            vars_view(vars@).len() == vars@.len(),
        decreases vars@.len() - i,
    {
        let ghost sv = vars_view(vars@);
        let ghost tail = sv.subrange(i as int, sv.len() as int);
        proof {
            lemma_vars_view_all(vars@);
            assert(tail.first() == sv[i as int]);
            assert(tail.drop_first() =~= sv.subrange(i as int + 1, sv.len() as int));
        }
        if vars[i].name.eq(name) {
            let _ = vars.remove(i);
            proof {
                lemma_vars_view_all(vars@);
                assert(vars_view(vars@) =~= sv.subrange(0, i as int) + sv.subrange(
                    i as int + 1,
                    sv.len() as int,
                ));
                assert(vars_view(vars@).subrange(0, i as int) =~= sv.subrange(0, i as int));
                assert(vars_view(vars@).subrange(i as int, vars_view(vars@).len() as int)
                    =~= sv.subrange(i as int + 1, sv.len() as int));
            }
        } else {
            proof {
                assert(s_remove_var(tail, name@) == seq![sv[i as int]] + s_remove_var(
                    tail.drop_first(),
                    name@,
                ));
                assert(sv.subrange(0, i as int) + (seq![sv[i as int]] + s_remove_var(
                    tail.drop_first(),
                    name@,
                )) =~= sv.subrange(0, i as int + 1) + s_remove_var(tail.drop_first(), name@));
            }
            i += 1;
        }
    }
    proof {
        let sv = vars_view(vars@);
        assert(sv.subrange(i as int, sv.len() as int) =~= Seq::<VariableV>::empty());
        assert(sv.subrange(0, i as int) =~= sv);
        assert(sv.subrange(0, i as int) + Seq::<VariableV>::empty() =~= sv);
    }
}

/// Index of the first declaration with this name, if any.
fn find_fun(funcs: &Vec<Function>, name: &String) -> (res: Option<usize>)
    ensures
        match res {
            Option::Some(k) => k < funcs@.len() && s_lookup_fun(funcs_view(funcs@), name@)
                == Option::Some(func_view(funcs@[k as int])),
            Option::None => s_lookup_fun(funcs_view(funcs@), name@) == Option::<FunctionV>::None,
        },
{
    broadcast use lemma_funcs_view_len, lemma_funcs_view_index;

    let ghost sv = funcs_view(funcs@);
    proof {
        lemma_funcs_view_all(funcs@);
    }
    let mut i: usize = 0;
    while i < funcs.len()
        invariant
            i <= funcs@.len(),
            sv == funcs_view(funcs@),
            sv.len() == funcs@.len(),
            forall|j: int| 0 <= j < i ==> sv[j].name != name@,
        decreases funcs@.len() - i,
    {
        proof {
            lemma_funcs_view_all(funcs@);
        }
        if funcs[i].name.eq(name) {
            proof {
                lemma_lookup_fun_skip(sv, name@, i as int);
                assert(sv.skip(i as int).first() == sv[i as int]);
            }
            return Option::Some(i);
        }
        i += 1;
    }
    proof {
        lemma_lookup_fun_skip(sv, name@, funcs@.len() as int);
        assert(sv.skip(sv.len() as int) =~= Seq::<FunctionV>::empty());
    }
    Option::None
}

/// Register a declaration: the latest declaration with a given name wins.
fn register_fun(funcs: &mut Vec<Function>, f: Function)
    ensures
        funcs_view(final(funcs)@) == s_register_fun(funcs_view(old(funcs)@), f@),
{
    broadcast use lemma_funcs_view_len, lemma_funcs_view_index;

    let ghost sv = funcs_view(old(funcs)@);
    let ghost target = func_view(f);
    proof {
        lemma_funcs_view_all(funcs@);
    }
    let mut i: usize = 0;
    while i < funcs.len()
        invariant
            i <= funcs@.len(),
            sv == funcs_view(funcs@),
            sv == funcs_view(old(funcs)@),
            sv.len() == funcs@.len(),
            forall|j: int| 0 <= j < i ==> sv[j].name != target.name,
            func_view(f) == target,
            target.name == f.name@,
            f@ == target,
        decreases funcs@.len() - i,
    {
        proof {
            lemma_funcs_view_all(funcs@);
        }
        if funcs[i].name.eq(&f.name) {
            proof {
                lemma_register_fun_skip(sv, target, i as int);
                assert(sv.skip(i as int).first() == sv[i as int]);
                assert(sv.skip(i as int).drop_first() =~= sv.skip(i as int + 1));
            }
            let ghost pre = funcs@;
            funcs[i] = f;
            proof {
                lemma_funcs_view_all(funcs@);
                assert(funcs@.len() == pre.len());
                assert(func_view(funcs@[i as int]) == target);
                assert(forall|j: int| 0 <= j < pre.len() && j != i ==> funcs@[j] == pre[j]);
                assert(funcs_view(funcs@) =~= sv.take(i as int) + (seq![target] + sv.skip(
                    i as int + 1,
                )));
            }
            return ;
        }
        i += 1;
    }
    proof {
        lemma_register_fun_skip(sv, target, sv.len() as int);
        assert(sv.skip(sv.len() as int) =~= Seq::<FunctionV>::empty());
        assert(sv.take(sv.len() as int) =~= sv);
    }
    funcs.push(f);
    proof {
        lemma_funcs_view_all(funcs@);
        assert(funcs_view(funcs@) =~= sv + seq![target]);
    }
}

} // verus!

verus! {

pub proof fn lemma_vars_view_all(s: Seq<Variable>)
    ensures
        vars_view(s).len() == s.len(),
        forall|i: int| 0 <= i < s.len() ==> vars_view(s)[i] == var_view(s[i]),
    decreases s,
{
    if s.len() > 0 {
        lemma_vars_view_all(s.drop_first());
        assert forall|i: int| 0 <= i < s.len() implies vars_view(s)[i] == var_view(s[i]) by {
            if i > 0 {
                assert(vars_view(s)[i] == vars_view(s.drop_first())[i - 1]);
                assert(s.drop_first()[i - 1] == s[i]);
            }
        }
    }
}

pub proof fn lemma_funcs_view_all(s: Seq<Function>)
    ensures
        funcs_view(s).len() == s.len(),
        forall|i: int| 0 <= i < s.len() ==> funcs_view(s)[i] == func_view(s[i]),
    decreases s,
{
    if s.len() > 0 {
        lemma_funcs_view_all(s.drop_first());
        assert forall|i: int| 0 <= i < s.len() implies funcs_view(s)[i] == func_view(s[i]) by {
            if i > 0 {
                assert(funcs_view(s)[i] == funcs_view(s.drop_first())[i - 1]);
                assert(s.drop_first()[i - 1] == s[i]);
            }
        }
    }
}

pub proof fn lemma_values_view_all(s: Seq<Value>)
    ensures
        values_view(s).len() == s.len(),
        forall|i: int| 0 <= i < s.len() ==> values_view(s)[i] == value_view(s[i]),
    decreases s,
{
    if s.len() > 0 {
        lemma_values_view_all(s.drop_first());
        assert forall|i: int| 0 <= i < s.len() implies values_view(s)[i] == value_view(s[i]) by {
            if i > 0 {
                assert(values_view(s)[i] == values_view(s.drop_first())[i - 1]);
                assert(s.drop_first()[i - 1] == s[i]);
            }
        }
    }
}

pub proof fn lemma_stmts_view_all(s: Seq<Statement>)
    ensures
        stmts_view(s).len() == s.len(),
        forall|i: int| 0 <= i < s.len() ==> stmts_view(s)[i] == stmt_view(s[i]),
    decreases s,
{
    if s.len() > 0 {
        lemma_stmts_view_all(s.drop_first());
        assert forall|i: int| 0 <= i < s.len() implies stmts_view(s)[i] == stmt_view(s[i]) by {
            if i > 0 {
                assert(stmts_view(s)[i] == stmts_view(s.drop_first())[i - 1]);
                assert(s.drop_first()[i - 1] == s[i]);
            }
        }
    }
}

pub proof fn lemma_exprs_view_all(s: Seq<Expression>)
    ensures
        exprs_view(s).len() == s.len(),
        forall|i: int| 0 <= i < s.len() ==> exprs_view(s)[i] == expr_view(s[i]),
    decreases s,
{
    if s.len() > 0 {
        lemma_exprs_view_all(s.drop_first());
        assert forall|i: int| 0 <= i < s.len() implies exprs_view(s)[i] == expr_view(s[i]) by {
            if i > 0 {
                assert(exprs_view(s)[i] == exprs_view(s.drop_first())[i - 1]);
                assert(s.drop_first()[i - 1] == s[i]);
            }
        }
    }
}

pub proof fn lemma_params_view_all(s: Seq<(String, Option<Value>)>)
    ensures
        params_view(s).len() == s.len(),
        forall|i: int| 0 <= i < s.len() ==> params_view(s)[i] == param_view(s[i]),
    decreases s,
{
    if s.len() > 0 {
        lemma_params_view_all(s.drop_first());
        assert forall|i: int| 0 <= i < s.len() implies params_view(s)[i] == param_view(s[i]) by {
            if i > 0 {
                assert(params_view(s)[i] == params_view(s.drop_first())[i - 1]);
                assert(s.drop_first()[i - 1] == s[i]);
            }
        }
    }
}

} // verus!

verus! {

impl Interpreter {
    /// A fresh, empty global frame.
    pub fn new() -> (r: Interpreter)
        ensures
            r@.vars.len() == 0,
            r@.funcs.len() == 0,
    {
        Interpreter { variables: Vec::new(), functions: Vec::new() }
    }

    /// Evaluate an expression in this frame and return exactly what the
    /// mathematical evaluator returns; the frame itself never changes.
    pub fn eval_expression(&self, expr: &Expression, fuel: u64) -> (res: Result<
        Value,
        RuntimeError,
    >)
        ensures
            value_res_view(res) == s_eval_expr(self@, expr@, fuel as nat),
        decreases fuel, 1int,
    {
        if fuel == 0 {
            return Result::Err(RuntimeError::Cancelled);
        }
        match expr {
            Expression::Literal(v) => Result::Ok(clone_value(v)),
            Expression::Variable(name) => match find_var(&self.variables, name) {
                Option::Some(k) => {
                    proof {
                        lemma_vars_view_all(self.variables@);
                    }
                    Result::Ok(clone_value(&self.variables[k].value))
                },
                Option::None => Result::Err(RuntimeError::NameError(name.clone())),
            },
            Expression::Binary(l, op, r) => match self.eval_expression(&**l, fuel - 1) {
                Result::Ok(lv) => match self.eval_expression(&**r, fuel - 1) {
                    Result::Ok(rv) => apply_binop(*op, lv, rv),
                    Result::Err(e2) => Result::Err(e2),
                },
                Result::Err(e1) => Result::Err(e1),
            },
            Expression::Unary(op, inner) => match self.eval_expression(&**inner, fuel - 1) {
                Result::Ok(v) => apply_unop(*op, v),
                Result::Err(e1) => Result::Err(e1),
            },
            Expression::FunctionCall(name, args) => {
                proof {
                    assert(exprs_view(args@).skip(0) =~= exprs_view(args@));
                }
                match find_fun(&self.functions, name) {
                    Option::None => Result::Err(RuntimeError::NameError(name.clone())),
                    Option::Some(k) => match self.eval_expressions(args, 0, fuel - 1) {
                        Result::Ok(argv) => self.call_function(k, argv, fuel - 1),
                        Result::Err(e1) => Result::Err(e1),
                    },
                }
            },
        }
    }

    /// Evaluate the argument list from position `idx` on, left to right.
    fn eval_expressions(&self, args: &Vec<Expression>, idx: usize, fuel: u64) -> (res: Result<
        Vec<Value>,
        RuntimeError,
    >)
        requires
            idx <= args@.len(),
        ensures
            (match res {
                Result::Ok(vs) => Result::<Seq<ValueV>, ErrV>::Ok(values_view(vs@)),
                Result::Err(e) => Result::<Seq<ValueV>, ErrV>::Err(err_view(e)),
            }) == s_eval_exprs(self@, exprs_view(args@).skip(idx as int), fuel as nat),
        decreases fuel, 0int,
    {
        proof {
            lemma_exprs_view_all(args@);
        }
        let ghost evs = exprs_view(args@).skip(idx as int);
        if fuel == 0 {
            return Result::Err(RuntimeError::Cancelled);
        }
        if idx == args.len() {
            let out: Vec<Value> = Vec::new();
            proof {
                assert(evs =~= Seq::<ExpressionV>::empty());
                assert(values_view(out@) =~= Seq::<ValueV>::empty());
            }
            return Result::Ok(out);
        }
        proof {
            assert(evs.first() == exprs_view(args@)[idx as int]);
            assert(evs.drop_first() =~= exprs_view(args@).skip(idx as int + 1));
        }
        match self.eval_expression(&args[idx], fuel - 1) {
            Result::Err(e1) => Result::Err(e1),
            Result::Ok(v) => match self.eval_expressions(args, idx + 1, fuel - 1) {
                Result::Err(e2) => Result::Err(e2),
                Result::Ok(rest) => {
                    let ghost pre = rest@;
                    let mut out = rest;
                    out.insert(0, v);
                    proof {
                        lemma_values_view_all(out@);
                        lemma_values_view_all(pre);
                        assert(out@ =~= seq![v] + pre);
                        assert(values_view(out@) =~= seq![value_view(v)] + values_view(pre));
                    }
                    Result::Ok(out)
                },
            },
        }
    }

    /// Run a declared function on already-evaluated arguments.
    fn call_function(&self, k: usize, argv: Vec<Value>, fuel: u64) -> (res: Result<
        Value,
        RuntimeError,
    >)
        requires
            k < self.functions@.len(),
        ensures
            value_res_view(res) == s_call(
                self@,
                func_view(self.functions@[k as int]),
                values_view(argv@),
                fuel as nat,
            ),
        decreases fuel, 0int,
    {
        proof {
            lemma_funcs_view_all(self.functions@);
            lemma_values_view_all(argv@);
            lemma_params_view_all(self.functions@[k as int].params@);
        }
        let ghost fv = func_view(self.functions@[k as int]);
        let ghost argsv = values_view(argv@);
        if fuel == 0 {
            return Result::Err(RuntimeError::Cancelled);
        }
        let f = &self.functions[k];
        if argv.len() > f.params.len() {
            return Result::Err(
                RuntimeError::ArityError(f.name.clone(), f.params.len(), argv.len()),
            );
        }
        let want: usize = f.params.len();
        let got: usize = argv.len();
        let mut locals: Vec<Variable> = Vec::new();
        let mut j: usize = 0;
        proof {
            assert(vars_view(locals@) =~= Seq::<VariableV>::empty());
            assert(params_view(f.params@).skip(0) =~= params_view(f.params@));
            assert(argsv.skip(0) =~= argsv);
        }
        while j < f.params.len()
            invariant
                k < self.functions@.len(),
                fuel >= 1,
                j <= f.params@.len(),
                got <= want,
                want == f.params@.len(),
                got == argv@.len(),
                f == &self.functions@[k as int],
                fv == func_view(self.functions@[k as int]),
                argsv == values_view(argv@),
                fv.params == params_view(f.params@),
                fv.params.len() == f.params@.len(),
                fv.name == f.name@,
                argsv.len() == argv@.len(),
                forall|i: int|
                    0 <= i < f.params@.len() ==> params_view(f.params@)[i] == param_view(
                        f.params@[i],
                    ),
                forall|i: int|
                    0 <= i < argv@.len() ==> values_view(argv@)[i] == value_view(argv@[i]),
                s_bind_params(Seq::empty(), fv.params, argsv, fv.name, want, got) == s_bind_params(
                    vars_view(locals@),
                    fv.params.skip(j as int),
                    if j < got {
                        argsv.skip(j as int)
                    } else {
                        Seq::empty()
                    },
                    fv.name,
                    want,
                    got,
                ),
            decreases f.params@.len() - j,
        {
            let ghost ptail = fv.params.skip(j as int);
            proof {
                assert(ptail.first() == fv.params[j as int]);
                assert(ptail.drop_first() =~= fv.params.skip(j as int + 1));
                if j < got {
                    assert(argsv.skip(j as int).first() == argsv[j as int]);
                    assert(argsv.skip(j as int).drop_first() =~= argsv.skip(j as int + 1));
                    if j + 1 == got {
                        assert(argsv.skip(j as int + 1) =~= Seq::<ValueV>::empty());
                    }
                }
            }
            let pname = &f.params[j].0;
            if j < argv.len() {
                let v = clone_value(&argv[j]);
                assign_var(&mut locals, pname, v);
            } else {
                match &f.params[j].1 {
                    Option::Some(d) => {
                        let v = clone_value(d);
                        assign_var(&mut locals, pname, v);
                    },
                    Option::None => {
                        return Result::Err(
                            RuntimeError::ArityError(f.name.clone(), want, got),
                        );
                    },
                }
            }
            j += 1;
        }
        proof {
            assert(fv.params.skip(j as int) =~= Seq::<(Seq<char>, Option<ValueV>)>::empty());
        }
        let mut callee = Interpreter {
            variables: locals,
            functions: clone_functions(&self.functions),
        };
        match callee.eval_statements(&f.body, fuel - 1) {
            Result::Ok(Flow::Normal) => Result::Ok(Value::NoneVal),
            Result::Ok(Flow::Return(v)) => Result::Ok(v),
            Result::Err(e) => Result::Err(e),
        }
    }

    /// Evaluate one statement against this frame.  The frame afterwards and
    /// the outcome are exactly those of the mathematical evaluator; on an
    /// error, every effect applied before the failure point is retained.
    pub fn eval_statement(&mut self, s: &Statement, fuel: u64) -> (res: Result<Flow, RuntimeError>)
        ensures
            final(self)@ == s_eval_stmt(old(self)@, s@, fuel as nat).0,
            flow_res_view(res) == s_eval_stmt(old(self)@, s@, fuel as nat).1,
        decreases fuel, 2int,
    {
        if fuel == 0 {
            return Result::Err(RuntimeError::Cancelled);
        }
        match s {
            Statement::Import(_) => Result::Ok(Flow::Normal),
            Statement::Assignment(name, e) => match self.eval_expression(e, fuel - 1) {
                Result::Ok(v) => {
                    assign_var(&mut self.variables, name, v);
                    Result::Ok(Flow::Normal)
                },
                Result::Err(er) => Result::Err(er),
            },
            Statement::Expression(e) => match self.eval_expression(e, fuel - 1) {
                Result::Ok(_) => Result::Ok(Flow::Normal),
                Result::Err(er) => Result::Err(er),
            },
            Statement::If(c, then_block, else_block) => match self.eval_expression(c, fuel - 1) {
                Result::Err(er) => Result::Err(er),
                Result::Ok(Value::Boolean(true)) => self.eval_statements(then_block, fuel - 1),
                Result::Ok(Value::Boolean(false)) => match else_block {
                    Option::Some(b) => self.eval_statements(b, fuel - 1),
                    Option::None => Result::Ok(Flow::Normal),
                },
                Result::Ok(other) => Result::Err(
                    RuntimeError::TypeError(OpKind::Condition, kind(&other), Option::None),
                ),
            },
            Statement::While(c, body) => match self.eval_expression(c, fuel - 1) {
                Result::Err(er) => Result::Err(er),
                Result::Ok(Value::Boolean(false)) => Result::Ok(Flow::Normal),
                Result::Ok(Value::Boolean(true)) => {
                    let inner = self.eval_statements(body, fuel - 1);
                    match inner {
                        Result::Ok(Flow::Normal) => self.eval_statement(s, fuel - 1),
                        _ => inner,
                    }
                },
                Result::Ok(other) => Result::Err(
                    RuntimeError::TypeError(OpKind::Condition, kind(&other), Option::None),
                ),
            },
            Statement::For(var, lo_e, hi_e, body) => match self.eval_expression(lo_e, fuel - 1) {
                Result::Err(er) => Result::Err(er),
                Result::Ok(lo_v) => match self.eval_expression(hi_e, fuel - 1) {
                    Result::Err(er) => Result::Err(er),
                    Result::Ok(hi_v) => match (lo_v, hi_v) {
                        (Value::Integer(lo), Value::Integer(hi)) => self.eval_for(
                            var,
                            lo,
                            hi,
                            body,
                            fuel - 1,
                        ),
                        (lv, hv) => Result::Err(
                            RuntimeError::TypeError(
                                OpKind::ForRange,
                                kind(&lv),
                                Option::Some(kind(&hv)),
                            ),
                        ),
                    },
                },
            },
            Statement::Function(f) => {
                register_fun(&mut self.functions, clone_function(f));
                Result::Ok(Flow::Normal)
            },
            Statement::Return(e) => match self.eval_expression(e, fuel - 1) {
                Result::Ok(v) => Result::Ok(Flow::Return(v)),
                Result::Err(er) => Result::Err(er),
            },
        }
    }

    /// Run the inclusive ascending range of a `for` statement.
    fn eval_for(
        &mut self,
        var: &String,
        lo: i64,
        hi: i64,
        body: &Vec<Statement>,
        fuel: u64,
    ) -> (res: Result<Flow, RuntimeError>)
        ensures
            final(self)@ == s_eval_for(old(self)@, var@, lo, hi, stmts_view(body@), fuel as nat).0,
            flow_res_view(res) == s_eval_for(
                old(self)@,
                var@,
                lo,
                hi,
                stmts_view(body@),
                fuel as nat,
            ).1,
        decreases fuel, 0int,
    {
        if fuel == 0 {
            return Result::Err(RuntimeError::Cancelled);
        }
        if lo > hi {
            return Result::Ok(Flow::Normal);
        }
        assign_var(&mut self.variables, var, Value::Integer(lo));
        let inner = self.eval_statements(body, fuel - 1);
        match inner {
            Result::Err(e) => Result::Err(e),
            Result::Ok(Flow::Return(v)) => {
                remove_var(&mut self.variables, var);
                Result::Ok(Flow::Return(v))
            },
            Result::Ok(Flow::Normal) => {
                if lo == hi {
                    remove_var(&mut self.variables, var);
                    Result::Ok(Flow::Normal)
                } else {
                    self.eval_for(var, lo + 1, hi, body, fuel - 1)
                }
            },
        }
    }

    /// Evaluate a statement list in order; the first `return` or error stops
    /// the remaining statements.
    pub fn eval_statements(&mut self, ss: &Vec<Statement>, fuel: u64) -> (res: Result<
        Flow,
        RuntimeError,
    >)
        ensures
            final(self)@ == s_eval_stmts(old(self)@, stmts_view(ss@), fuel as nat).0,
            flow_res_view(res) == s_eval_stmts(old(self)@, stmts_view(ss@), fuel as nat).1,
        decreases fuel, 3int,
    {
        proof {
            assert(stmts_view(ss@).skip(0) =~= stmts_view(ss@));
        }
        self.eval_statements_from(ss, 0, fuel)
    }

    /// Evaluate the statement list from position `idx` on.
    fn eval_statements_from(&mut self, ss: &Vec<Statement>, idx: usize, fuel: u64) -> (res: Result<
        Flow,
        RuntimeError,
    >)
        requires
            idx <= ss@.len(),
        ensures
            final(self)@ == s_eval_stmts(old(self)@, stmts_view(ss@).skip(idx as int), fuel as nat).0,
            flow_res_view(res) == s_eval_stmts(
                old(self)@,
                stmts_view(ss@).skip(idx as int),
                fuel as nat,
            ).1,
        decreases fuel, 0int,
    {
        proof {
            lemma_stmts_view_all(ss@);
        }
        let ghost stv = stmts_view(ss@).skip(idx as int);
        if fuel == 0 {
            return Result::Err(RuntimeError::Cancelled);
        }
        if idx == ss.len() {
            proof {
                assert(stv =~= Seq::<StatementV>::empty());
            }
            return Result::Ok(Flow::Normal);
        }
        proof {
            assert(stv.first() == stmts_view(ss@)[idx as int]);
            assert(stv.drop_first() =~= stmts_view(ss@).skip(idx as int + 1));
        }
        let first_res = self.eval_statement(&ss[idx], fuel - 1);
        match first_res {
            Result::Ok(Flow::Normal) => self.eval_statements_from(ss, idx + 1, fuel - 1),
            _ => first_res,
        }
    }
}

} // verus!
