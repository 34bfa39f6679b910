use vstd::prelude::*;

use crate::values::{Literal, LiteralV, literal_eq, clone_literal};

verus! {

/// A reference to a column: an optional table qualifier, the column name,
/// and an optional alias. Two references denote the same column when their
/// table and name agree; the alias plays no part in identity.
#[derive(Debug)]
pub struct Column {
    pub name: String,
    pub alias: Option<String>,
    pub table: Option<String>,
}

/// The mathematical model of a `Column`.
pub struct ColumnV {
    pub name: Seq<char>,
    pub alias: Option<Seq<char>>,
    pub table: Option<Seq<char>>,
}

/// The model of an `Option<String>`.
pub open spec fn opt_str_view(o: Option<String>) -> Option<Seq<char>> {
    match o {
        Some(s) => Some(s@),
        None => None,
    }
}

impl View for Column {
    type V = ColumnV;

    open spec fn view(&self) -> ColumnV {
        ColumnV { name: self.name@, alias: opt_str_view(self.alias), table: opt_str_view(
            self.table,
        ) }
    }
}

/// Column identity: table qualifier and name agree.
pub open spec fn col_id_eq(a: ColumnV, b: ColumnV) -> bool {
    a.name == b.name && a.table == b.table
}

/// Compares two optional strings by contents.
pub fn opt_string_eq(a: &Option<String>, b: &Option<String>) -> (r: bool)
    ensures
        r == (opt_str_view(*a) == opt_str_view(*b)),
{
    match a {
        Some(x) => match b {
            Some(y) => x.eq(y),
            None => false,
        },
        None => match b {
            Some(_) => false,
            None => true,
        },
    }
}

/// Copies an optional string.
pub fn clone_opt_string(a: &Option<String>) -> (r: Option<String>)
    ensures
        opt_str_view(r) == opt_str_view(*a),
{
    match a {
        Some(x) => Some(x.clone()),
        None => None,
    }
}

/// Decides column identity: same table qualifier and same name.
pub fn column_id_eq(a: &Column, b: &Column) -> (r: bool)
    ensures
        r == col_id_eq(a@, b@),
{
    a.name.eq(&b.name) && opt_string_eq(&a.table, &b.table)
}

/// Compares two column references structurally (alias included).
pub fn column_eq(a: &Column, b: &Column) -> (r: bool)
    ensures
        r == (a@ == b@),
{
    a.name.eq(&b.name) && opt_string_eq(&a.table, &b.table) && opt_string_eq(&a.alias, &b.alias)
}

/// Copies a column reference.
pub fn clone_column(a: &Column) -> (r: Column)
    ensures
        r@ == a@,
{
    Column { name: a.name.clone(), alias: clone_opt_string(&a.alias), table: clone_opt_string(
        &a.table,
    ) }
}

/// The model of a vector of columns.
pub open spec fn columns_view(s: Seq<Column>) -> Seq<ColumnV> {
    Seq::new(s.len(), |i: int| s[i]@)
}

/// A comparison or logical operator in a condition tree.
#[derive(Clone, Copy, Debug, PartialEq, Eq, Structural)]
pub enum Operator {
    Not,
    And,
    Or,
    Like,
    NotLike,
    Equal,
    NotEqual,
    Greater,
    GreaterOrEqual,
    Less,
    LessOrEqual,
    In,
    Is,
}

/// An arithmetic operator in a `SET` expression.
#[derive(Clone, Copy, Debug, PartialEq, Eq, Structural)]
pub enum ArithmeticOperator {
    Add,
    Subtract,
    Multiply,
    Divide,
}

/// One operand of an arithmetic expression: a column or a scalar literal.
#[derive(Debug)]
pub enum ArithmeticBase {
    Column(Column),
    Scalar(Literal),
}

/// The mathematical model of an `ArithmeticBase`.
pub enum ArithmeticBaseV {
    Column(ColumnV),
    Scalar(LiteralV),
}

impl View for ArithmeticBase {
    type V = ArithmeticBaseV;

    open spec fn view(&self) -> ArithmeticBaseV {
        match self {
            ArithmeticBase::Column(c) => ArithmeticBaseV::Column(c@),
            ArithmeticBase::Scalar(l) => ArithmeticBaseV::Scalar(l@),
        }
    }
}

/// A binary arithmetic expression, as it appears in a `SET` clause.
#[derive(Debug)]
pub struct ArithmeticExpression {
    pub op: ArithmeticOperator,
    pub left: ArithmeticBase,
    pub right: ArithmeticBase,
    pub alias: Option<String>,
}

/// The mathematical model of an `ArithmeticExpression`.
pub struct ArithmeticExpressionV {
    pub op: ArithmeticOperator,
    pub left: ArithmeticBaseV,
    pub right: ArithmeticBaseV,
    pub alias: Option<Seq<char>>,
}

impl View for ArithmeticExpression {
    type V = ArithmeticExpressionV;

    open spec fn view(&self) -> ArithmeticExpressionV {
        ArithmeticExpressionV { op: self.op, left: self.left@, right: self.right@, alias:
            opt_str_view(self.alias) }
    }
}

/// A literal together with an optional alias, as a projected or assigned value.
#[derive(Debug)]
pub struct LiteralExpression {
    pub value: Literal,
    pub alias: Option<String>,
}

/// The mathematical model of a `LiteralExpression`.
pub struct LiteralExpressionV {
    pub value: LiteralV,
    pub alias: Option<Seq<char>>,
}

impl View for LiteralExpression {
    type V = LiteralExpressionV;

    open spec fn view(&self) -> LiteralExpressionV {
        LiteralExpressionV { value: self.value@, alias: opt_str_view(self.alias) }
    }
}

/// The right-hand side of a `SET` assignment: a literal or an arithmetic
/// expression.
#[derive(Debug)]
pub enum FieldValueExpression {
    Arithmetic(ArithmeticExpression),
    Literal(LiteralExpression),
}

/// The mathematical model of a `FieldValueExpression`.
pub enum FieldValueExpressionV {
    Arithmetic(ArithmeticExpressionV),
    Literal(LiteralExpressionV),
}

impl View for FieldValueExpression {
    type V = FieldValueExpressionV;

    open spec fn view(&self) -> FieldValueExpressionV {
        match self {
            FieldValueExpression::Arithmetic(a) => FieldValueExpressionV::Arithmetic(a@),
            FieldValueExpression::Literal(l) => FieldValueExpressionV::Literal(l@),
        }
    }
}

/// Copies an arithmetic operand.
pub fn clone_arithmetic_base(a: &ArithmeticBase) -> (r: ArithmeticBase)
    ensures
        r@ == a@,
{
    match a {
        ArithmeticBase::Column(c) => ArithmeticBase::Column(clone_column(c)),
        ArithmeticBase::Scalar(l) => ArithmeticBase::Scalar(clone_literal(l)),
    }
}

/// Copies a `SET` right-hand side.
pub fn clone_field_value_expression(f: &FieldValueExpression) -> (r: FieldValueExpression)
    ensures
        r@ == f@,
{
    match f {
        FieldValueExpression::Arithmetic(a) => FieldValueExpression::Arithmetic(
            ArithmeticExpression {
                op: a.op,
                left: clone_arithmetic_base(&a.left),
                right: clone_arithmetic_base(&a.right),
                alias: clone_opt_string(&a.alias),
            },
        ),
        FieldValueExpression::Literal(l) => FieldValueExpression::Literal(
            LiteralExpression { value: clone_literal(&l.value), alias: clone_opt_string(&l.alias) },
        ),
    }
}

/// A leaf of a condition tree: a column, a literal, or a literal list.
#[derive(Debug)]
pub enum ConditionBase {
    Field(Column),
    Literal(Literal),
    LiteralList(Vec<Literal>),
}

/// The mathematical model of a `ConditionBase`.
pub enum ConditionBaseV {
    Field(ColumnV),
    Literal(LiteralV),
    LiteralList(Seq<LiteralV>),
}

/// The model of a vector of literals.
pub open spec fn lits_view(v: Vec<Literal>) -> Seq<LiteralV> {
    Seq::new(v@.len(), |i: int| v@[i]@)
}

impl View for ConditionBase {
    type V = ConditionBaseV;

    open spec fn view(&self) -> ConditionBaseV {
        match self {
            ConditionBase::Field(c) => ConditionBaseV::Field(c@),
            ConditionBase::Literal(l) => ConditionBaseV::Literal(l@),
            ConditionBase::LiteralList(ls) => ConditionBaseV::LiteralList(lits_view(*ls)),
        }
    }
}

/// An interior node of a condition tree: an operator and two subtrees.
#[derive(Debug)]
pub struct ConditionTree {
    pub operator: Operator,
    pub left: Box<ConditionExpression>,
    pub right: Box<ConditionExpression>,
}

/// A boolean condition over columns and literals, as parsed from a `WHERE`
/// clause. Each node exclusively owns its children; the structure is a tree.
#[derive(Debug)]
pub enum ConditionExpression {
    ComparisonOp(ConditionTree),
    LogicalOp(ConditionTree),
    NegationOp(Box<ConditionExpression>),
    Base(ConditionBase),
    Arithmetic(Box<ArithmeticExpression>),
    Bracketed(Box<ConditionExpression>),
}

/// The mathematical model of a `ConditionExpression`.
pub enum CondV {
    ComparisonOp(Operator, Box<CondV>, Box<CondV>),
    LogicalOp(Operator, Box<CondV>, Box<CondV>),
    NegationOp(Box<CondV>),
    Base(ConditionBaseV),
    Arithmetic(ArithmeticExpressionV),
    Bracketed(Box<CondV>),
}

/// The model of a condition tree.
pub open spec fn cond_view(c: ConditionExpression) -> CondV
    decreases c,
{
    match c {
        ConditionExpression::ComparisonOp(t) => CondV::ComparisonOp(
            t.operator,
            Box::new(cond_view(*t.left)),
            Box::new(cond_view(*t.right)),
        ),
        ConditionExpression::LogicalOp(t) => CondV::LogicalOp(
            t.operator,
            Box::new(cond_view(*t.left)),
            Box::new(cond_view(*t.right)),
        ),
        ConditionExpression::NegationOp(e) => CondV::NegationOp(Box::new(cond_view(*e))),
        ConditionExpression::Base(b) => CondV::Base(b@),
        ConditionExpression::Arithmetic(a) => CondV::Arithmetic((*a)@),
        ConditionExpression::Bracketed(e) => CondV::Bracketed(Box::new(cond_view(*e))),
    }
}

impl View for ConditionExpression {
    type V = CondV;

    open spec fn view(&self) -> CondV {
        cond_view(*self)
    }
}

} // verus!
