//! The syntax tree that the parser builds, and its mathematical value.
//!
//! Every node owns its children. The value of a node (`@`) is the same tree
//! with character sequences for texts and sequences for lists.

use vstd::prelude::*;

verus! {

#[derive(Debug, Clone, Copy, PartialEq, Eq, Structural)]
pub enum BinaryOp {
    Add,
    Sub,
    Mul,
    Div,
    Mod,
    EqualEqual,
    NotEqual,
    Less,
    LessEqual,
    Greater,
    GreaterEqual,
    And,
    Or,
}

#[derive(Debug, Clone, Copy, PartialEq, Eq, Structural)]
pub enum UnaryOp {
    Negate,
    Not,
}

/// A literal. A number is kept as the text it was written as, which is a
/// valid decimal floating-point literal.
#[derive(Debug, PartialEq)]
pub enum Literal {
    Number(String),
    String(String),
    Boolean(bool),
}

/// A type as written in the source.
#[derive(Debug, PartialEq)]
pub enum Type {
    /// A named type.
    Simple(String),
    /// A function type: the parameter types, then the return type.
    Function(Vec<Type>, Box<Type>),
    /// A named type applied to type arguments.
    Generic { name: String, params: Vec<Type> },
}

/// A parameter of a function or of a lambda.
#[derive(Debug, PartialEq)]
pub struct Parameter {
    pub name: String,
    pub type_annotation: Option<Type>,
}

#[derive(Debug, PartialEq)]
pub enum Expr {
    Binary { left: Box<Expr>, op: BinaryOp, right: Box<Expr> },
    Unary { op: UnaryOp, expr: Box<Expr> },
    Literal(Literal),
    Identifier(String),
    Grouping(Box<Expr>),
    Block(Vec<Stmt>),
    PropertyAccess { object: Box<Expr>, name: String },
    Call { callee: Box<Expr>, arguments: Vec<Expr> },
    Lambda { params: Vec<Parameter>, body: Box<Expr> },
    /// A struct construction: the struct's name, then each field's name and
    /// value.
    StructLiteral { name: String, fields: Vec<(String, Expr)> },
}

#[derive(Debug, PartialEq)]
pub enum Stmt {
    VariableDecl {
        is_mutable: bool,
        name: String,
        type_annotation: Option<Type>,
        initializer: Option<Expr>,
    },
    FunctionDecl { name: String, params: Vec<Parameter>, return_type: Option<Type>, body: Vec<Stmt> },
    /// A class: its name, its field declarations (variable declarations) and
    /// its method declarations (function declarations).
    ClassDecl { name: String, fields: Vec<Stmt>, methods: Vec<Stmt> },
    ModuleDecl { name: String, declarations: Vec<Stmt> },
    Import(String),
    Return(Option<Expr>),
    Expression(Expr),
}

/// The mathematical value of a [`Literal`].
pub enum LiteralView {
    Number(Seq<char>),
    String(Seq<char>),
    Boolean(bool),
}

/// The mathematical value of a [`Type`].
pub enum TypeView {
    Simple(Seq<char>),
    Function(Seq<TypeView>, Box<TypeView>),
    Generic { name: Seq<char>, params: Seq<TypeView> },
}

/// The mathematical value of a [`Parameter`].
pub struct ParameterView {
    pub name: Seq<char>,
    pub type_annotation: Option<TypeView>,
}

/// The mathematical value of an [`Expr`].
pub enum ExprView {
    Binary { left: Box<ExprView>, op: BinaryOp, right: Box<ExprView> },
    Unary { op: UnaryOp, expr: Box<ExprView> },
    Literal(LiteralView),
    Identifier(Seq<char>),
    Grouping(Box<ExprView>),
    Block(Seq<StmtView>),
    PropertyAccess { object: Box<ExprView>, name: Seq<char> },
    Call { callee: Box<ExprView>, arguments: Seq<ExprView> },
    Lambda { params: Seq<ParameterView>, body: Box<ExprView> },
    StructLiteral { name: Seq<char>, fields: Seq<(Seq<char>, ExprView)> },
}

/// The mathematical value of a [`Stmt`].
pub enum StmtView {
    VariableDecl {
        is_mutable: bool,
        name: Seq<char>,
        type_annotation: Option<TypeView>,
        initializer: Option<ExprView>,
    },
    FunctionDecl {
        name: Seq<char>,
        params: Seq<ParameterView>,
        return_type: Option<TypeView>,
        body: Seq<StmtView>,
    },
    ClassDecl { name: Seq<char>, fields: Seq<StmtView>, methods: Seq<StmtView> },
    ModuleDecl { name: Seq<char>, declarations: Seq<StmtView> },
    Import(Seq<char>),
    Return(Option<ExprView>),
    Expression(ExprView),
}

impl View for Literal {
    type V = LiteralView;

    open spec fn view(&self) -> LiteralView {
        match self {
            Literal::Number(text) => LiteralView::Number(text@),
            Literal::String(text) => LiteralView::String(text@),
            Literal::Boolean(value) => LiteralView::Boolean(*value),
        }
    }
}

/// The value of a type.
pub open spec fn type_view(t: Type) -> TypeView
    decreases t,
{
    match t {
        Type::Simple(name) => TypeView::Simple(name@),
        Type::Function(params, result) => TypeView::Function(
            types_view(params@),
            Box::new(type_view(*result)),
        ),
        Type::Generic { name, params } => TypeView::Generic {
            name: name@,
            params: types_view(params@),
        },
    }
}

/// The values of a sequence of types, in order.
pub open spec fn types_view(types: Seq<Type>) -> Seq<TypeView>
    decreases types,
{
    Seq::new(
        types.len(),
        |i: int|
            if 0 <= i < types.len() {
                type_view(types[i])
            } else {
                arbitrary()
            },
    )
}

impl View for Type {
    type V = TypeView;

    open spec fn view(&self) -> TypeView {
        type_view(*self)
    }
}

/// The value of a type annotation that may be absent.
pub open spec fn annotation_view(annotation: Option<Type>) -> Option<TypeView> {
    match annotation {
        Some(t) => Some(t@),
        None => None,
    }
}

impl View for Parameter {
    type V = ParameterView;

    open spec fn view(&self) -> ParameterView {
        ParameterView { name: self.name@, type_annotation: annotation_view(self.type_annotation) }
    }
}

/// The values of a sequence of parameters, in order.
pub open spec fn parameters_view(params: Seq<Parameter>) -> Seq<ParameterView> {
    params.map_values(|p: Parameter| p@)
}

/// The value of an expression.
pub open spec fn expr_view(e: Expr) -> ExprView
    decreases e,
{
    match e {
        Expr::Binary { left, op, right } => ExprView::Binary {
            left: Box::new(expr_view(*left)),
            op,
            right: Box::new(expr_view(*right)),
        },
        Expr::Unary { op, expr } => ExprView::Unary { op, expr: Box::new(expr_view(*expr)) },
        Expr::Literal(literal) => ExprView::Literal(literal@),
        Expr::Identifier(name) => ExprView::Identifier(name@),
        Expr::Grouping(inner) => ExprView::Grouping(Box::new(expr_view(*inner))),
        Expr::Block(body) => ExprView::Block(stmts_view(body@)),
        Expr::PropertyAccess { object, name } => ExprView::PropertyAccess {
            object: Box::new(expr_view(*object)),
            name: name@,
        },
        Expr::Call { callee, arguments } => ExprView::Call {
            callee: Box::new(expr_view(*callee)),
            arguments: exprs_view(arguments@),
        },
        Expr::Lambda { params, body } => ExprView::Lambda {
            params: parameters_view(params@),
            body: Box::new(expr_view(*body)),
        },
        Expr::StructLiteral { name, fields } => ExprView::StructLiteral {
            name: name@,
            fields: fields_view(fields@),
        },
    }
}

/// The values of a sequence of expressions, in order.
pub open spec fn exprs_view(exprs: Seq<Expr>) -> Seq<ExprView>
    decreases exprs,
{
    Seq::new(
        exprs.len(),
        |i: int|
            if 0 <= i < exprs.len() {
                expr_view(exprs[i])
            } else {
                arbitrary()
            },
    )
}

/// The values of the fields of a struct literal, in order.
pub open spec fn fields_view(fields: Seq<(String, Expr)>) -> Seq<(Seq<char>, ExprView)>
    decreases fields,
{
    Seq::new(
        fields.len(),
        |i: int|
            if 0 <= i < fields.len() {
                (fields[i].0@, expr_view(fields[i].1))
            } else {
                arbitrary()
            },
    )
}

/// The value of an expression that may be absent.
pub open spec fn optional_expr_view(e: Option<Expr>) -> Option<ExprView>
    decreases e,
{
    match e {
        Some(e) => Some(expr_view(e)),
        None => None,
    }
}

/// The value of a statement.
pub open spec fn stmt_view(s: Stmt) -> StmtView
    decreases s,
{
    match s {
        Stmt::VariableDecl { is_mutable, name, type_annotation, initializer } => {
            StmtView::VariableDecl {
                is_mutable,
                name: name@,
                type_annotation: annotation_view(type_annotation),
                initializer: optional_expr_view(initializer),
            }
        },
        Stmt::FunctionDecl { name, params, return_type, body } => StmtView::FunctionDecl {
            name: name@,
            params: parameters_view(params@),
            return_type: annotation_view(return_type),
            body: stmts_view(body@),
        },
        Stmt::ClassDecl { name, fields, methods } => StmtView::ClassDecl {
            name: name@,
            fields: stmts_view(fields@),
            methods: stmts_view(methods@),
        },
        Stmt::ModuleDecl { name, declarations } => StmtView::ModuleDecl {
            name: name@,
            declarations: stmts_view(declarations@),
        },
        Stmt::Import(name) => StmtView::Import(name@),
        Stmt::Return(value) => StmtView::Return(optional_expr_view(value)),
        Stmt::Expression(e) => StmtView::Expression(expr_view(e)),
    }
}

/// The values of a sequence of statements, in order.
pub open spec fn stmts_view(stmts: Seq<Stmt>) -> Seq<StmtView>
    decreases stmts,
{
    Seq::new(
        stmts.len(),
        |i: int|
            if 0 <= i < stmts.len() {
                stmt_view(stmts[i])
            } else {
                arbitrary()
            },
    )
}

impl View for Expr {
    type V = ExprView;

    open spec fn view(&self) -> ExprView {
        expr_view(*self)
    }
}

impl View for Stmt {
    type V = StmtView;

    open spec fn view(&self) -> StmtView {
        stmt_view(*self)
    }
}

/// Appending one type appends its value.
pub proof fn lemma_types_view_push(types: Seq<Type>, t: Type)
    ensures
        types_view(types.push(t)) == types_view(types).push(t@),
{
    assert(types_view(types.push(t)) =~= types_view(types).push(t@));
}

/// Appending one parameter appends its value.
pub proof fn lemma_parameters_view_push(params: Seq<Parameter>, p: Parameter)
    ensures
        parameters_view(params.push(p)) == parameters_view(params).push(p@),
{
    assert(parameters_view(params.push(p)) =~= parameters_view(params).push(p@));
}

/// Appending one expression appends its value.
pub proof fn lemma_exprs_view_push(exprs: Seq<Expr>, e: Expr)
    ensures
        exprs_view(exprs.push(e)) == exprs_view(exprs).push(e@),
{
    assert(exprs_view(exprs.push(e)) =~= exprs_view(exprs).push(e@));
}

/// Appending one field appends its value.
pub proof fn lemma_fields_view_push(fields: Seq<(String, Expr)>, name: String, value: Expr)
    ensures
        fields_view(fields.push((name, value))) == fields_view(fields).push((name@, value@)),
{
    assert(fields_view(fields.push((name, value))) =~= fields_view(fields).push(
        (name@, value@),
    ));
}

/// Appending one statement appends its value.
pub proof fn lemma_stmts_view_push(stmts: Seq<Stmt>, s: Stmt)
    ensures
        stmts_view(stmts.push(s)) == stmts_view(stmts).push(s@),
{
    assert(stmts_view(stmts.push(s)) =~= stmts_view(stmts).push(s@));
}

} // verus!
