use vstd::prelude::*;

use crate::Fatal;
use crate::ast::{
    Column, ColumnV, CondV, ConditionBase, ConditionBaseV, ConditionExpression, Operator,
    clone_column,
};
use crate::flatten::{as_field, as_literal};
use crate::ast::columns_view;
use crate::stmt::{SqlQuery, SqlQueryV};
use crate::values::{Literal, LiteralV, literal_is_placeholder};

verus! {

/// The literal list of a condition leaf, when the node is one.
pub open spec fn as_literal_list(c: CondV) -> Option<Seq<LiteralV>> {
    match c {
        CondV::Base(ConditionBaseV::LiteralList(ls)) => Some(ls),
        _ => None,
    }
}

/// Whether every literal in the list is a placeholder.
pub open spec fn all_placeholders(ls: Seq<LiteralV>) -> bool {
    forall|i: int| 0 <= i < ls.len() ==> (#[trigger] ls[i]) is Placeholder
}

/// The columns bound by the placeholders of a condition tree, in
/// left-to-right syntactic order, or `None` when the tree holds a shape
/// the locator does not support.
///
/// An equality between a field and a placeholder binds that field; an
/// `IN` list of placeholders binds the field once per entry; any other
/// field-to-literal or field-to-field comparison binds nothing; `AND`,
/// `OR`, negation and brackets walk their children.
pub open spec fn param_cols_cond(c: CondV) -> Option<Seq<ColumnV>>
    decreases c,
{
    match c {
        CondV::ComparisonOp(op, left, right) => {
            if as_field(*left) is Some && as_literal(*right) is Some {
                if op == Operator::Equal && as_literal(*right)->Some_0 is Placeholder {
                    Some(seq![as_field(*left)->Some_0])
                } else {
                    Some(Seq::empty())
                }
            } else if as_literal(*left) is Some && as_field(*right) is Some {
                if op == Operator::Equal && as_literal(*left)->Some_0 is Placeholder {
                    Some(seq![as_field(*right)->Some_0])
                } else {
                    Some(Seq::empty())
                }
            } else if as_field(*left) is Some && as_literal_list(*right) is Some {
                let ls = as_literal_list(*right)->Some_0;
                if op == Operator::In && all_placeholders(ls) {
                    Some(Seq::new(ls.len(), |i: int| as_field(*left)->Some_0))
                } else {
                    None
                }
            } else if as_field(*left) is Some && as_field(*right) is Some {
                Some(Seq::empty())
            } else {
                None
            }
        },
        CondV::LogicalOp(op, left, right) => {
            if op == Operator::And || op == Operator::Or {
                match param_cols_cond(*left) {
                    Some(a) => match param_cols_cond(*right) {
                        Some(b) => Some(a + b),
                        None => None,
                    },
                    None => None,
                }
            } else {
                None
            }
        },
        CondV::NegationOp(e) => param_cols_cond(*e),
        CondV::Bracketed(e) => param_cols_cond(*e),
        _ => None,
    }
}

/// The columns bound by bare-placeholder `SET` assignments among the first
/// `n`, in `SET`-clause order.
pub open spec fn update_set_params_upto(
    fields: Seq<(ColumnV, crate::ast::FieldValueExpressionV)>,
    n: int,
) -> Seq<ColumnV>
    decreases n,
{
    if n <= 0 {
        Seq::empty()
    } else if is_bare_placeholder(fields[n - 1].1) {
        update_set_params_upto(fields, n - 1).push(fields[n - 1].0)
    } else {
        update_set_params_upto(fields, n - 1)
    }
}

/// Whether a `SET` right-hand side is a bare, unaliased placeholder.
pub open spec fn is_bare_placeholder(f: crate::ast::FieldValueExpressionV) -> bool {
    f matches crate::ast::FieldValueExpressionV::Literal(le) && le.value is Placeholder
        && le.alias is None
}

/// The columns bound by the placeholders of the first `n` positions of an
/// inserted row, or `None` when a placeholder has no declared column.
pub open spec fn insert_params_upto(
    row: Seq<LiteralV>,
    fields: Option<Seq<ColumnV>>,
    n: int,
) -> Option<Seq<ColumnV>>
    decreases n,
{
    if n <= 0 {
        Some(Seq::empty())
    } else {
        match insert_params_upto(row, fields, n - 1) {
            None => None,
            Some(acc) => {
                if row[n - 1] is Placeholder {
                    match fields {
                        Some(fs) => {
                            if n - 1 < fs.len() {
                                Some(acc.push(fs[n - 1]))
                            } else {
                                None
                            }
                        },
                        None => None,
                    }
                } else {
                    Some(acc)
                }
            },
        }
    }
}

/// The columns bound by a statement's placeholders, in the left-to-right
/// order the values will be supplied at execution time, or `None` for a
/// statement kind or shape outside the supported subset.
pub open spec fn param_cols_query(q: SqlQueryV) -> Option<Seq<ColumnV>> {
    match q {
        SqlQueryV::Select(s) => match s.where_clause {
            Some(w) => param_cols_cond(w),
            None => Some(Seq::empty()),
        },
        SqlQueryV::Insert(ins) => {
            if ins.data.len() != 1 {
                None
            } else {
                insert_params_upto(ins.data[0], ins.fields, ins.data[0].len() as int)
            }
        },
        SqlQueryV::Update(u) => {
            let set_params = update_set_params_upto(u.fields, u.fields.len() as int);
            match u.where_clause {
                Some(w) => match param_cols_cond(w) {
                    Some(ws) => Some(set_params + ws),
                    None => None,
                },
                None => Some(set_params),
            }
        },
        _ => None,
    }
}

/// Once a placeholder lacks its declared column, the whole row has no
/// parameter-column list.
proof fn lemma_insert_params_none(row: Seq<LiteralV>, fields: Option<Seq<ColumnV>>, m: int, n: int)
    requires
        insert_params_upto(row, fields, m) is None,
        m <= n,
    ensures
        insert_params_upto(row, fields, n) is None,
    decreases n - m,
{
    if m < n {
        lemma_insert_params_none(row, fields, m, n - 1);
    }
}

/// Walks a condition tree and collects the columns its placeholders bind.
fn get_parameter_columns_recurse(cond: &ConditionExpression) -> (r: Result<Vec<Column>, Fatal>)
    ensures
        match r {
            Ok(v) => param_cols_cond(cond@) == Some(columns_view(v@)),
            Err(e) => param_cols_cond(cond@) is None && e == Fatal::UnsupportedStatementShape,
        },
    decreases *cond,
{
    match cond {
        ConditionExpression::ComparisonOp(tree) => {
            proof {
                assert(cond@ == CondV::ComparisonOp(
                    tree.operator,
                    Box::new((*tree.left)@),
                    Box::new((*tree.right)@),
                ));
            }
            match &*tree.left {
                ConditionExpression::Base(ConditionBase::Field(c)) => match &*tree.right {
                    ConditionExpression::Base(ConditionBase::Literal(l)) => {
                        proof {
                            assert(as_field((*tree.left)@) == Some(c@));
                            assert(as_literal((*tree.right)@) == Some(l@));
                        }
                        let mut out: Vec<Column> = Vec::new();
                        if matches!(tree.operator, Operator::Equal) && literal_is_placeholder(l) {
                            out.push(clone_column(c));
                            proof {
                                assert(columns_view(out@) =~= seq![c@]);
                            }
                        } else {
                            proof {
                                assert(columns_view(out@) =~= Seq::<ColumnV>::empty());
                            }
                        }
                        Ok(out)
                    },
                    ConditionExpression::Base(ConditionBase::LiteralList(ls)) => {
                        proof {
                            assert(as_field((*tree.left)@) == Some(c@));
                            assert(as_literal_list((*tree.right)@) == Some(
                                crate::ast::lits_view(*ls),
                            ));
                            assert(as_literal((*tree.right)@) is None);
                        }
                        if matches!(tree.operator, Operator::In) && all_placeholders_exec(ls) {
                            let mut out: Vec<Column> = Vec::new();
                            let mut i: usize = 0;
                            while i < ls.len()
                                invariant
                                    i <= ls.len(),
                                    out@.len() == i,
                                    forall|j: int| 0 <= j < i ==> columns_view(out@)[j] == c@,
                                decreases ls.len() - i,
                            {
                                let ghost prev = columns_view(out@);
                                out.push(clone_column(c));
                                i = i + 1;
                                proof {
                                    assert(columns_view(out@) =~= prev.push(c@));
                                }
                            }
                            proof {
                                assert(columns_view(out@) =~= Seq::new(
                                    crate::ast::lits_view(*ls).len(),
                                    |i: int| c@,
                                ));
                            }
                            Ok(out)
                        } else {
                            Err(Fatal::UnsupportedStatementShape)
                        }
                    },
                    ConditionExpression::Base(ConditionBase::Field(_)) => {
                        let out: Vec<Column> = Vec::new();
                        proof {
                            assert(columns_view(out@) =~= Seq::<ColumnV>::empty());
                        }
                        Ok(out)
                    },
                    _ => Err(Fatal::UnsupportedStatementShape),
                },
                ConditionExpression::Base(ConditionBase::Literal(l)) => match &*tree.right {
                    ConditionExpression::Base(ConditionBase::Field(c)) => {
                        proof {
                            assert(as_literal((*tree.left)@) == Some(l@));
                            assert(as_field((*tree.right)@) == Some(c@));
                        }
                        let mut out: Vec<Column> = Vec::new();
                        if matches!(tree.operator, Operator::Equal) && literal_is_placeholder(l) {
                            out.push(clone_column(c));
                            proof {
                                assert(columns_view(out@) =~= seq![c@]);
                            }
                        } else {
                            proof {
                                assert(columns_view(out@) =~= Seq::<ColumnV>::empty());
                            }
                        }
                        Ok(out)
                    },
                    _ => Err(Fatal::UnsupportedStatementShape),
                },
                _ => Err(Fatal::UnsupportedStatementShape),
            }
        },
        ConditionExpression::LogicalOp(tree) => {
            proof {
                assert(cond@ == CondV::LogicalOp(
                    tree.operator,
                    Box::new((*tree.left)@),
                    Box::new((*tree.right)@),
                ));
            }
            if matches!(tree.operator, Operator::And) || matches!(tree.operator, Operator::Or) {
                let mut left_cols = get_parameter_columns_recurse(&tree.left)?;
                let right_cols = get_parameter_columns_recurse(&tree.right)?;
                let ghost lv = columns_view(left_cols@);
                let ghost rv = columns_view(right_cols@);
                let mut i: usize = 0;
                proof {
                    assert(columns_view(left_cols@) =~= lv + rv.subrange(0, 0));
                }
                while i < right_cols.len()
                    invariant
                        i <= right_cols.len(),
                        rv == columns_view(right_cols@),
                        columns_view(left_cols@) == lv + rv.subrange(0, i as int),
                    decreases right_cols.len() - i,
                {
                    let ghost prev = columns_view(left_cols@);
                    left_cols.push(clone_column(&right_cols[i]));
                    i = i + 1;
                    proof {
                        assert(columns_view(left_cols@) =~= prev.push(rv[i - 1]));
                        assert(lv + rv.subrange(0, i as int) =~= (lv + rv.subrange(
                            0,
                            i - 1,
                        )).push(rv[i - 1]));
                    }
                }
                proof {
                    assert(columns_view(left_cols@) =~= lv + rv);
                }
                Ok(left_cols)
            } else {
                Err(Fatal::UnsupportedStatementShape)
            }
        },
        ConditionExpression::NegationOp(e) => get_parameter_columns_recurse(e),
        ConditionExpression::Bracketed(e) => get_parameter_columns_recurse(e),
        _ => Err(Fatal::UnsupportedStatementShape),
    }
}

/// Whether every literal in the list is a placeholder.
fn all_placeholders_exec(ls: &Vec<Literal>) -> (r: bool)
    ensures
        r == all_placeholders(crate::ast::lits_view(*ls)),
{
    let mut i: usize = 0;
    while i < ls.len()
        invariant
            i <= ls.len(),
            forall|j: int| 0 <= j < i ==> (#[trigger] crate::ast::lits_view(*ls)[j]) is Placeholder,
        decreases ls.len() - i,
    {
        if !literal_is_placeholder(&ls[i]) {
            proof {
                assert(!(crate::ast::lits_view(*ls)[i as int] is Placeholder));
            }
            return false;
        }
        i = i + 1;
    }
    true
}

/// Locates the columns a statement's placeholders bind, one per
/// placeholder, in the left-to-right order the bound values will be
/// consumed at execution time.
///
/// For a `SELECT` the `WHERE` tree is walked; for an `INSERT` of a single
/// row each placeholder position yields its declared column; for an
/// `UPDATE` the bare-placeholder `SET` assignments come first, then the
/// `WHERE` placeholders. Every other statement kind, a multi-row insert, a
/// placeholder without a declared column, and any unsupported condition
/// shape are errors.
pub fn get_parameter_columns(query: &SqlQuery) -> (r: Result<Vec<Column>, Fatal>)
    ensures
        match r {
            Ok(v) => param_cols_query(query@) == Some(columns_view(v@)),
            Err(e) => param_cols_query(query@) is None && e == Fatal::UnsupportedStatementShape,
        },
{
    match query {
        SqlQuery::Select(sel) => match &sel.where_clause {
            Some(w) => get_parameter_columns_recurse(w),
            None => {
                let out: Vec<Column> = Vec::new();
                proof {
                    assert(columns_view(out@) =~= Seq::<ColumnV>::empty());
                }
                Ok(out)
            },
        },
        SqlQuery::Insert(ins) => {
            proof {
                assert(query@ == SqlQueryV::Insert(ins@));
            }
            if ins.data.len() != 1 {
                return Err(Fatal::UnsupportedStatementShape);
            }
            let row = &ins.data[0];
            let ghost rowv = ins@.data[0];
            let ghost fsv = ins@.fields;
            let mut out: Vec<Column> = Vec::new();
            let mut i: usize = 0;
            proof {
                assert(columns_view(out@) =~= Seq::<ColumnV>::empty());
                assert(rowv =~= Seq::new(row@.len(), |j: int| row@[j]@));
            }
            while i < row.len()
                invariant
                    i <= row.len(),
                    query@ == SqlQueryV::Insert(ins@),
                    ins@.data.len() == 1,
                    rowv == ins@.data[0],
                    fsv == ins@.fields,
                    rowv.len() == row@.len(),
                    forall|j: int| 0 <= j < row@.len() ==> rowv[j] == row@[j]@,
                    insert_params_upto(rowv, fsv, i as int) == Some(columns_view(out@)),
                decreases row.len() - i,
            {
                let ghost prev = columns_view(out@);
                if literal_is_placeholder(&row[i]) {
                    proof {
                        assert(rowv[i as int] is Placeholder);
                    }
                    match &ins.fields {
                        Some(fs) => {
                            proof {
                                assert(fsv == Some(columns_view(fs@)));
                            }
                            if i < fs.len() {
                                out.push(clone_column(&fs[i]));
                                proof {
                                    assert(columns_view(out@) =~= prev.push(fs@[i as int]@));
                                }
                            } else {
                                proof {
                                    assert(insert_params_upto(rowv, fsv, i as int + 1) is None);
                                    lemma_insert_params_none(
                                        rowv,
                                        fsv,
                                        i as int + 1,
                                        rowv.len() as int,
                                    );
                                }
                                return Err(Fatal::UnsupportedStatementShape);
                            }
                        },
                        None => {
                            proof {
                                assert(insert_params_upto(rowv, fsv, i as int + 1) is None);
                                lemma_insert_params_none(
                                    rowv,
                                    fsv,
                                    i as int + 1,
                                    rowv.len() as int,
                                );
                            }
                            return Err(Fatal::UnsupportedStatementShape);
                        },
                    }
                }
                i = i + 1;
            }
            Ok(out)
        },
        SqlQuery::Update(u) => {
            let ghost uv = u@;
            let mut out: Vec<Column> = Vec::new();
            let mut i: usize = 0;
            proof {
                assert(columns_view(out@) =~= Seq::<ColumnV>::empty());
            }
            while i < u.fields.len()
                invariant
                    i <= u.fields.len(),
                    uv == u@,
                    uv.fields.len() == u.fields@.len(),
                    columns_view(out@) == update_set_params_upto(uv.fields, i as int),
                decreases u.fields.len() - i,
            {
                let assign = &u.fields[i];
                let is_ph: bool = match &assign.1 {
                    crate::ast::FieldValueExpression::Literal(le) => {
                        match &le.value {
                            Literal::Placeholder => matches!(&le.alias, None),
                            _ => false,
                        }
                    },
                    _ => false,
                };
                proof {
                    assert(uv.fields[i as int] == (assign.0@, assign.1@));
                    assert(is_ph == is_bare_placeholder(uv.fields[i as int].1));
                }
                if is_ph {
                    out.push(clone_column(&assign.0));
                    proof {
                        assert(columns_view(out@) =~= update_set_params_upto(
                            uv.fields,
                            i as int + 1,
                        ));
                    }
                } else {
                    proof {
                        assert(columns_view(out@) =~= update_set_params_upto(
                            uv.fields,
                            i as int + 1,
                        ));
                    }
                }
                i = i + 1;
            }
            match &u.where_clause {
                Some(w) => {
                    let ws = get_parameter_columns_recurse(w)?;
                    let ghost sv = columns_view(out@);
                    let ghost wv = columns_view(ws@);
                    let mut j: usize = 0;
                    proof {
                        assert(columns_view(out@) =~= sv + wv.subrange(0, 0));
                    }
                    while j < ws.len()
                        invariant
                            j <= ws.len(),
                            wv == columns_view(ws@),
                            columns_view(out@) == sv + wv.subrange(0, j as int),
                        decreases ws.len() - j,
                    {
                        let ghost prev = columns_view(out@);
                        out.push(clone_column(&ws[j]));
                        j = j + 1;
                        proof {
                            assert(columns_view(out@) =~= prev.push(wv[j - 1]));
                            assert(sv + wv.subrange(0, j as int) =~= (sv + wv.subrange(
                                0,
                                j - 1,
                            )).push(wv[j - 1]));
                        }
                    }
                    proof {
                        assert(columns_view(out@) =~= sv + wv);
                    }
                    Ok(out)
                },
                None => Ok(out),
            }
        },
        _ => Err(Fatal::UnsupportedStatementShape),
    }
}

} // verus!
