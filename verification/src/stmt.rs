use vstd::prelude::*;

use crate::ast::{
    Column, ColumnV, CondV, ConditionExpression, FieldValueExpression, FieldValueExpressionV,
    cond_view, columns_view, opt_str_view,
};
use crate::values::{Literal, LiteralV};

verus! {

/// A table reference: name and optional alias.
#[derive(Debug)]
pub struct Table {
    pub name: String,
    pub alias: Option<String>,
}

/// The mathematical model of a `Table`.
pub struct TableV {
    pub name: Seq<char>,
    pub alias: Option<Seq<char>>,
}

impl View for Table {
    type V = TableV;

    open spec fn view(&self) -> TableV {
        TableV { name: self.name@, alias: opt_str_view(self.alias) }
    }
}

/// The model of an optional condition tree.
pub open spec fn opt_cond_view(c: Option<ConditionExpression>) -> Option<CondV> {
    match c {
        Some(e) => Some(cond_view(e)),
        None => None,
    }
}

/// One projected expression of a `SELECT`: everything, everything in one
/// table, or a single column.
#[derive(Debug)]
pub enum FieldDefinitionExpression {
    All,
    AllInTable(String),
    Col(Column),
}

/// The mathematical model of a `FieldDefinitionExpression`.
pub enum FieldDefinitionExpressionV {
    All,
    AllInTable(Seq<char>),
    Col(ColumnV),
}

impl View for FieldDefinitionExpression {
    type V = FieldDefinitionExpressionV;

    open spec fn view(&self) -> FieldDefinitionExpressionV {
        match self {
            FieldDefinitionExpression::All => FieldDefinitionExpressionV::All,
            FieldDefinitionExpression::AllInTable(t) => FieldDefinitionExpressionV::AllInTable(t@),
            FieldDefinitionExpression::Col(c) => FieldDefinitionExpressionV::Col(c@),
        }
    }
}

/// The ordering direction of one `ORDER BY` column.
#[derive(Clone, Copy, Debug, PartialEq, Eq, Structural)]
pub enum OrderType {
    OrderAscending,
    OrderDescending,
}

/// An `ORDER BY` clause.
#[derive(Debug)]
pub struct OrderClause {
    pub columns: Vec<(Column, OrderType)>,
}

/// The mathematical model of an `OrderClause`.
pub struct OrderClauseV {
    pub columns: Seq<(ColumnV, OrderType)>,
}

impl View for OrderClause {
    type V = OrderClauseV;

    open spec fn view(&self) -> OrderClauseV {
        OrderClauseV { columns: Seq::new(
            self.columns@.len(),
            |i: int| (self.columns@[i].0@, self.columns@[i].1),
        ) }
    }
}

/// A `LIMIT` clause.
#[derive(Clone, Copy, Debug, PartialEq, Eq, Structural)]
pub struct LimitClause {
    pub limit: u64,
    pub offset: u64,
}

/// A `GROUP BY` clause.
#[derive(Debug)]
pub struct GroupByClause {
    pub columns: Vec<Column>,
    pub having: Option<ConditionExpression>,
}

/// The mathematical model of a `GroupByClause`.
pub struct GroupByClauseV {
    pub columns: Seq<ColumnV>,
    pub having: Option<CondV>,
}

impl View for GroupByClause {
    type V = GroupByClauseV;

    open spec fn view(&self) -> GroupByClauseV {
        GroupByClauseV { columns: columns_view(self.columns@), having: opt_cond_view(
            self.having,
        ) }
    }
}

/// A `SELECT` statement, reduced to the shape the engine analyzes: joins
/// and subqueries are outside the supported subset and have no place here.
#[derive(Debug)]
pub struct SelectStatement {
    pub tables: Vec<Table>,
    pub distinct: bool,
    pub fields: Vec<FieldDefinitionExpression>,
    pub where_clause: Option<ConditionExpression>,
    pub group_by: Option<GroupByClause>,
    pub order: Option<OrderClause>,
    pub limit: Option<LimitClause>,
}

/// The mathematical model of a `SelectStatement`.
pub struct SelectStatementV {
    pub tables: Seq<TableV>,
    pub distinct: bool,
    pub fields: Seq<FieldDefinitionExpressionV>,
    pub where_clause: Option<CondV>,
    pub group_by: Option<GroupByClauseV>,
    pub order: Option<OrderClauseV>,
    pub limit: Option<LimitClause>,
}

/// The model of an optional group-by clause.
pub open spec fn opt_group_by_view(g: Option<GroupByClause>) -> Option<GroupByClauseV> {
    match g {
        Some(x) => Some(x@),
        None => None,
    }
}

/// The model of an optional order clause.
pub open spec fn opt_order_view(o: Option<OrderClause>) -> Option<OrderClauseV> {
    match o {
        Some(x) => Some(x@),
        None => None,
    }
}

impl View for SelectStatement {
    type V = SelectStatementV;

    open spec fn view(&self) -> SelectStatementV {
        SelectStatementV {
            tables: Seq::new(self.tables@.len(), |i: int| self.tables@[i]@),
            distinct: self.distinct,
            fields: Seq::new(self.fields@.len(), |i: int| self.fields@[i]@),
            where_clause: opt_cond_view(self.where_clause),
            group_by: opt_group_by_view(self.group_by),
            order: opt_order_view(self.order),
            limit: self.limit,
        }
    }
}

/// An `INSERT` statement: the target table, the declared columns, and the
/// rows of literal values.
#[derive(Debug)]
pub struct InsertStatement {
    pub table: Table,
    pub fields: Option<Vec<Column>>,
    pub data: Vec<Vec<Literal>>,
    pub ignore: bool,
}

/// The mathematical model of an `InsertStatement`.
pub struct InsertStatementV {
    pub table: TableV,
    pub fields: Option<Seq<ColumnV>>,
    pub data: Seq<Seq<LiteralV>>,
    pub ignore: bool,
}

impl View for InsertStatement {
    type V = InsertStatementV;

    open spec fn view(&self) -> InsertStatementV {
        InsertStatementV {
            table: self.table@,
            fields: match self.fields {
                Some(f) => Some(columns_view(f@)),
                None => None,
            },
            data: Seq::new(
                self.data@.len(),
                |i: int| Seq::new(self.data@[i]@.len(), |j: int| self.data@[i]@[j]@),
            ),
            ignore: self.ignore,
        }
    }
}

/// An `UPDATE` statement: the target table, the `SET` assignments in
/// statement order, and the optional `WHERE` tree.
#[derive(Debug)]
pub struct UpdateStatement {
    pub table: Table,
    pub fields: Vec<(Column, FieldValueExpression)>,
    pub where_clause: Option<ConditionExpression>,
}

/// The mathematical model of an `UpdateStatement`.
pub struct UpdateStatementV {
    pub table: TableV,
    pub fields: Seq<(ColumnV, FieldValueExpressionV)>,
    pub where_clause: Option<CondV>,
}

/// The model of a `SET` assignment list.
pub open spec fn set_fields_view(s: Seq<(Column, FieldValueExpression)>) -> Seq<
    (ColumnV, FieldValueExpressionV),
> {
    Seq::new(s.len(), |i: int| (s[i].0@, s[i].1@))
}

impl View for UpdateStatement {
    type V = UpdateStatementV;

    open spec fn view(&self) -> UpdateStatementV {
        UpdateStatementV {
            table: self.table@,
            fields: set_fields_view(self.fields@),
            where_clause: opt_cond_view(self.where_clause),
        }
    }
}

/// A `DELETE` statement: the target table and the optional `WHERE` tree.
#[derive(Debug)]
pub struct DeleteStatement {
    pub table: Table,
    pub where_clause: Option<ConditionExpression>,
}

/// The mathematical model of a `DeleteStatement`.
pub struct DeleteStatementV {
    pub table: TableV,
    pub where_clause: Option<CondV>,
}

impl View for DeleteStatement {
    type V = DeleteStatementV;

    open spec fn view(&self) -> DeleteStatementV {
        DeleteStatementV { table: self.table@, where_clause: opt_cond_view(self.where_clause) }
    }
}

/// A constraint attached to one column of a schema.
#[derive(Debug)]
pub enum ColumnConstraint {
    NotNull,
    CharacterSet(String),
    Collation(String),
    DefaultValue(Literal),
    AutoIncrement,
    PrimaryKey,
    Unique,
}

/// The mathematical model of a `ColumnConstraint`.
pub enum ColumnConstraintV {
    NotNull,
    CharacterSet(Seq<char>),
    Collation(Seq<char>),
    DefaultValue(LiteralV),
    AutoIncrement,
    PrimaryKey,
    Unique,
}

impl View for ColumnConstraint {
    type V = ColumnConstraintV;

    open spec fn view(&self) -> ColumnConstraintV {
        match self {
            ColumnConstraint::NotNull => ColumnConstraintV::NotNull,
            ColumnConstraint::CharacterSet(s) => ColumnConstraintV::CharacterSet(s@),
            ColumnConstraint::Collation(s) => ColumnConstraintV::Collation(s@),
            ColumnConstraint::DefaultValue(l) => ColumnConstraintV::DefaultValue(l@),
            ColumnConstraint::AutoIncrement => ColumnConstraintV::AutoIncrement,
            ColumnConstraint::PrimaryKey => ColumnConstraintV::PrimaryKey,
            ColumnConstraint::Unique => ColumnConstraintV::Unique,
        }
    }
}

/// One column declaration of a schema: the column and its constraints.
#[derive(Debug)]
pub struct ColumnSpecification {
    pub column: Column,
    pub constraints: Vec<ColumnConstraint>,
}

/// The mathematical model of a `ColumnSpecification`.
pub struct ColumnSpecificationV {
    pub column: ColumnV,
    pub constraints: Seq<ColumnConstraintV>,
}

impl View for ColumnSpecification {
    type V = ColumnSpecificationV;

    open spec fn view(&self) -> ColumnSpecificationV {
        ColumnSpecificationV { column: self.column@, constraints: Seq::new(
            self.constraints@.len(),
            |i: int| self.constraints@[i]@,
        ) }
    }
}

/// A table-level key declaration.
#[derive(Debug)]
pub enum TableKey {
    PrimaryKey(Vec<Column>),
    UniqueKey(Option<String>, Vec<Column>),
    FulltextKey(Option<String>, Vec<Column>),
    Key(String, Vec<Column>),
}

/// The mathematical model of a `TableKey`.
pub enum TableKeyV {
    PrimaryKey(Seq<ColumnV>),
    UniqueKey(Option<Seq<char>>, Seq<ColumnV>),
    FulltextKey(Option<Seq<char>>, Seq<ColumnV>),
    Key(Seq<char>, Seq<ColumnV>),
}

impl View for TableKey {
    type V = TableKeyV;

    open spec fn view(&self) -> TableKeyV {
        match self {
            TableKey::PrimaryKey(cols) => TableKeyV::PrimaryKey(columns_view(cols@)),
            TableKey::UniqueKey(n, cols) => TableKeyV::UniqueKey(
                opt_str_view(*n),
                columns_view(cols@),
            ),
            TableKey::FulltextKey(n, cols) => TableKeyV::FulltextKey(
                opt_str_view(*n),
                columns_view(cols@),
            ),
            TableKey::Key(n, cols) => TableKeyV::Key(n@, columns_view(cols@)),
        }
    }
}

/// A `CREATE TABLE` statement: the schema the keyed operations rely on.
#[derive(Debug)]
pub struct CreateTableStatement {
    pub table: Table,
    pub fields: Vec<ColumnSpecification>,
    pub keys: Option<Vec<TableKey>>,
}

/// The mathematical model of a `CreateTableStatement`.
pub struct CreateTableStatementV {
    pub table: TableV,
    pub fields: Seq<ColumnSpecificationV>,
    pub keys: Option<Seq<TableKeyV>>,
}

impl View for CreateTableStatement {
    type V = CreateTableStatementV;

    open spec fn view(&self) -> CreateTableStatementV {
        CreateTableStatementV {
            table: self.table@,
            fields: Seq::new(self.fields@.len(), |i: int| self.fields@[i]@),
            keys: match self.keys {
                Some(ks) => Some(Seq::new(ks@.len(), |i: int| ks@[i]@)),
                None => None,
            },
        }
    }
}

/// A parsed statement, by kind.
#[derive(Debug)]
pub enum SqlQuery {
    CreateTable(CreateTableStatement),
    Insert(InsertStatement),
    Select(SelectStatement),
    Delete(DeleteStatement),
    Update(UpdateStatement),
}

/// The mathematical model of a `SqlQuery`.
pub enum SqlQueryV {
    CreateTable(CreateTableStatementV),
    Insert(InsertStatementV),
    Select(SelectStatementV),
    Delete(DeleteStatementV),
    Update(UpdateStatementV),
}

impl View for SqlQuery {
    type V = SqlQueryV;

    open spec fn view(&self) -> SqlQueryV {
        match self {
            SqlQuery::CreateTable(s) => SqlQueryV::CreateTable(s@),
            SqlQuery::Insert(s) => SqlQueryV::Insert(s@),
            SqlQuery::Select(s) => SqlQueryV::Select(s@),
            SqlQuery::Delete(s) => SqlQueryV::Delete(s@),
            SqlQuery::Update(s) => SqlQueryV::Update(s@),
        }
    }
}

} // verus!
