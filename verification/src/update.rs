use vstd::prelude::*;

use crate::Fatal;
use crate::ast::{
    Column, ColumnV, CondV, ConditionBase, ConditionExpression, FieldValueExpression,
    FieldValueExpressionV, Operator, clone_field_value_expression, clone_column, col_id_eq,
    column_id_eq,
};
use crate::flatten::{as_field, as_literal, tuple_has_col};
use crate::schema::{get_primary_key, pk_view, primary_key_spec};
use crate::stmt::{CreateTableStatement, CreateTableStatementV, UpdateStatement, set_fields_view};
use crate::values::{
    Modification, ModificationV, Operation, Value, ValueV, clone_value, lit_value,
    literal_is_placeholder, values_view,
};

verus! {

/// An ordered, single-pass stream of bound parameter values, consumed
/// strictly left to right as placeholders are encountered.
#[derive(Debug)]
pub struct ParamStream {
    values: Vec<Value>,
    cursor: usize,
}

impl ParamStream {
    /// The values not yet consumed, in order.
    pub closed spec fn remaining(&self) -> Seq<ValueV> {
        values_view(self.values@).skip(self.cursor as int)
    }

    /// The stream's cursor never passes the end.
    pub closed spec fn wf(&self) -> bool {
        self.cursor <= self.values@.len()
    }

    /// Wraps the bound values of one statement execution as a stream.
    pub fn from_values(values: Vec<Value>) -> (s: ParamStream)
        ensures
            s.wf(),
            s.remaining() == values_view(values@),
    {
        let s = ParamStream { values, cursor: 0 };
        proof {
            assert(s.remaining() =~= values_view(s.values@));
        }
        s
    }

    /// Takes the next bound value, advancing the stream.
    pub fn next(&mut self) -> (r: Option<Value>)
        requires
            old(self).wf(),
        ensures
            final(self).wf(),
            match r {
                Some(v) => old(self).remaining().len() > 0 && v@ == old(self).remaining()[0]
                    && final(self).remaining() == old(self).remaining().drop_first(),
                None => old(self).remaining().len() == 0 && final(self).remaining() == old(
                    self,
                ).remaining(),
            },
    {
        if self.cursor < self.values.len() {
            let v = clone_value(&self.values[self.cursor]);
            proof {
                assert(v@ == old(self).remaining()[0]);
            }
            self.cursor = self.cursor + 1;
            proof {
                assert(self.remaining() =~= old(self).remaining().drop_first());
            }
            Some(v)
        } else {
            None
        }
    }
}

/// A sequence with index `i` replaced by the last element and the last
/// element dropped: the effect of a swap-removal.
pub open spec fn seq_swap_remove<T>(s: Seq<T>, i: int) -> Seq<T> {
    s.update(i, s.last()).drop_last()
}

/// The first `SET` assignment at or after `i` that targets the named
/// column.
pub open spec fn find_set_from(
    fields: Seq<(ColumnV, FieldValueExpressionV)>,
    name: Seq<char>,
    i: int,
) -> Option<int>
    decreases fields.len() - i,
{
    if i < 0 || i >= fields.len() {
        None
    } else if fields[i].0.name == name {
        Some(i)
    } else {
        find_set_from(fields, name, i + 1)
    }
}

/// A found `SET` position lies within the list and names the column.
proof fn lemma_find_set_in_bounds(
    fields: Seq<(ColumnV, FieldValueExpressionV)>,
    name: Seq<char>,
    i0: int,
)
    ensures
        match find_set_from(fields, name, i0) {
            Some(i) => i0 <= i < fields.len() && fields[i].0.name == name,
            None => true,
        },
    decreases fields.len() - i0,
{
    if i0 < 0 || i0 >= fields.len() {
    } else if fields[i0].0.name == name {
    } else {
        lemma_find_set_in_bounds(fields, name, i0 + 1);
    }
}

/// The modification one matched `SET` right-hand side produces for a
/// schema field, together with the parameter values it leaves unconsumed.
///
/// A bare placeholder takes the next bound value; a plain literal is the
/// value itself; an arithmetic expression of the exact shape
/// `column ± scalar` on the same column is a relative adjustment; every
/// other shape is unsupported.
pub open spec fn set_step(
    fv: FieldValueExpressionV,
    col: ColumnV,
    params: Seq<ValueV>,
) -> Result<(ModificationV, Seq<ValueV>), Fatal> {
    match fv {
        FieldValueExpressionV::Literal(le) => {
            if le.alias is Some {
                Err(Fatal::UnsupportedStatementShape)
            } else if le.value is Placeholder {
                if params.len() == 0 {
                    Err(Fatal::ParameterUnderflow)
                } else {
                    Ok((ModificationV::Assign(params[0]), params.drop_first()))
                }
            } else {
                match lit_value(le.value) {
                    Some(v) => Ok((ModificationV::Assign(v), params)),
                    None => Err(Fatal::UnsupportedStatementShape),
                }
            }
        },
        FieldValueExpressionV::Arithmetic(ae) => {
            if ae.alias is Some {
                Err(Fatal::UnsupportedStatementShape)
            } else {
                match ae.left {
                    crate::ast::ArithmeticBaseV::Column(c) => match ae.right {
                        crate::ast::ArithmeticBaseV::Scalar(l) => {
                            if !col_id_eq(c, col) {
                                Err(Fatal::UnsupportedStatementShape)
                            } else {
                                match lit_value(l) {
                                    Some(v) => match ae.op {
                                        crate::ast::ArithmeticOperator::Add => Ok(
                                            (ModificationV::Apply(Operation::Add, v), params),
                                        ),
                                        crate::ast::ArithmeticOperator::Subtract => Ok(
                                            (ModificationV::Apply(Operation::Sub, v), params),
                                        ),
                                        _ => Err(Fatal::UnsupportedStatementShape),
                                    },
                                    None => Err(Fatal::UnsupportedStatementShape),
                                }
                            }
                        },
                        _ => Err(Fatal::UnsupportedStatementShape),
                    },
                    _ => Err(Fatal::UnsupportedStatementShape),
                }
            }
        },
    }
}

/// Walks the schema fields from index `i`, pulling out the `SET`
/// assignment that targets each field (by column name, consuming it from
/// the assignment list) and accumulating the modifications in schema
/// order.
pub open spec fn extract_fields_rec(
    schema_fields: Seq<crate::stmt::ColumnSpecificationV>,
    i: int,
    fields: Seq<(ColumnV, FieldValueExpressionV)>,
    params: Seq<ValueV>,
    updates: Seq<(int, ModificationV)>,
) -> Result<(Seq<(int, ModificationV)>, Seq<ValueV>), Fatal>
    decreases schema_fields.len() - i,
{
    if i < 0 || i >= schema_fields.len() {
        Ok((updates, params))
    } else {
        match find_set_from(fields, schema_fields[i].column.name, 0) {
            None => extract_fields_rec(schema_fields, i + 1, fields, params, updates),
            Some(j) => match set_step(fields[j].1, schema_fields[i].column, params) {
                Err(e) => Err(e),
                Ok((m, params2)) => extract_fields_rec(
                    schema_fields,
                    i + 1,
                    seq_swap_remove(fields, j),
                    params2,
                    updates.push((i, m)),
                ),
            },
        }
    }
}

/// The model of an executable modification list.
pub open spec fn updates_view(v: Seq<(usize, Modification)>) -> Seq<(int, ModificationV)> {
    Seq::new(v.len(), |i: int| (v[i].0 as int, v[i].1@))
}

/// Finds the first `SET` assignment that targets the named column.
fn find_set_position(fields: &Vec<(Column, FieldValueExpression)>, name: &String) -> (r: Option<
    usize,
>)
    ensures
        match r {
            Some(j) => find_set_from(set_fields_view(fields@), name@, 0) == Some(j as int),
            None => find_set_from(set_fields_view(fields@), name@, 0) is None,
        },
{
    let ghost fv = set_fields_view(fields@);
    let mut j: usize = 0;
    while j < fields.len()
        invariant
            j <= fields@.len(),
            fv == set_fields_view(fields@),
            find_set_from(fv, name@, 0) == find_set_from(fv, name@, j as int),
        decreases fields@.len() - j,
    {
        if fields[j].0.name.eq(name) {
            proof {
                assert(fv[j as int].0.name == name@);
            }
            return Some(j);
        }
        proof {
            assert(fv[j as int].0.name != name@);
        }
        j = j + 1;
    }
    None
}

/// Realizes `set_step` on one matched assignment, consuming a bound value
/// for a bare placeholder.
fn set_step_exec(fv: &FieldValueExpression, col: &Column, params: &mut ParamStream) -> (r: Result<
    Modification,
    Fatal,
>)
    requires
        old(params).wf(),
    ensures
        final(params).wf(),
        match set_step(fv@, col@, old(params).remaining()) {
            Ok((m, p2)) => r matches Ok(m2) && m2@ == m && final(params).remaining() == p2,
            Err(e) => r == Err::<Modification, Fatal>(e),
        },
{
    match fv {
        FieldValueExpression::Literal(le) => {
            if !matches!(&le.alias, None) {
                return Err(Fatal::UnsupportedStatementShape);
            }
            if literal_is_placeholder(&le.value) {
                match params.next() {
                    Some(v) => Ok(Modification::Assign(v)),
                    None => Err(Fatal::ParameterUnderflow),
                }
            } else {
                match crate::values::value_of_literal(&le.value) {
                    Some(v) => Ok(Modification::Assign(v)),
                    None => Err(Fatal::UnsupportedStatementShape),
                }
            }
        },
        FieldValueExpression::Arithmetic(ae) => {
            if !matches!(&ae.alias, None) {
                return Err(Fatal::UnsupportedStatementShape);
            }
            match &ae.left {
                crate::ast::ArithmeticBase::Column(c) => match &ae.right {
                    crate::ast::ArithmeticBase::Scalar(l) => {
                        if !column_id_eq(c, col) {
                            return Err(Fatal::UnsupportedStatementShape);
                        }
                        match crate::values::value_of_literal(l) {
                            Some(v) => match &ae.op {
                                crate::ast::ArithmeticOperator::Add => Ok(
                                    Modification::Apply(Operation::Add, v),
                                ),
                                crate::ast::ArithmeticOperator::Subtract => Ok(
                                    Modification::Apply(Operation::Sub, v),
                                ),
                                _ => Err(Fatal::UnsupportedStatementShape),
                            },
                            None => Err(Fatal::UnsupportedStatementShape),
                        }
                    },
                    _ => Err(Fatal::UnsupportedStatementShape),
                },
                _ => Err(Fatal::UnsupportedStatementShape),
            }
        },
    }
}

/// Turns the `SET` clauses of an `UPDATE` into ordered field
/// modifications: the schema's fields are walked in declaration order, and
/// each field with a matching assignment yields its index paired with the
/// modification, consuming bound values for bare placeholders as they are
/// met.
pub fn extract_update_params_and_fields(
    q: &UpdateStatement,
    params: &mut ParamStream,
    schema: &CreateTableStatement,
) -> (r: Result<Vec<(usize, Modification)>, Fatal>)
    requires
        old(params).wf(),
    ensures
        final(params).wf(),
        match r {
            Ok(v) => extract_fields_rec(
                schema@.fields,
                0,
                set_fields_view(q.fields@),
                old(params).remaining(),
                Seq::empty(),
            ) == Ok::<_, Fatal>((updates_view(v@), final(params).remaining())),
            Err(e) => extract_fields_rec(
                schema@.fields,
                0,
                set_fields_view(q.fields@),
                old(params).remaining(),
                Seq::empty(),
            ) == Err::<(Seq<(int, ModificationV)>, Seq<ValueV>), _>(e),
        },
{
    let mut fields: Vec<(Column, FieldValueExpression)> = Vec::new();
    let mut k: usize = 0;
    proof {
        assert(set_fields_view(fields@) =~= set_fields_view(q.fields@).subrange(0, 0));
    }
    while k < q.fields.len()
        invariant
            k <= q.fields@.len(),
            set_fields_view(fields@) == set_fields_view(q.fields@).subrange(0, k as int),
        decreases q.fields@.len() - k,
    {
        let ghost prev = set_fields_view(fields@);
        let pair = &q.fields[k];
        fields.push((clone_column(&pair.0), clone_field_value_expression(&pair.1)));
        k = k + 1;
        proof {
            assert(set_fields_view(fields@) =~= prev.push(
                (q.fields@[k - 1].0@, q.fields@[k - 1].1@),
            ));
            assert(set_fields_view(fields@) =~= set_fields_view(q.fields@).subrange(0, k as int));
        }
    }
    proof {
        assert(set_fields_view(fields@) =~= set_fields_view(q.fields@));
    }
    let ghost spec_result = extract_fields_rec(
        schema@.fields,
        0,
        set_fields_view(q.fields@),
        old(params).remaining(),
        Seq::empty(),
    );
    let mut updates: Vec<(usize, Modification)> = Vec::new();
    let mut i: usize = 0;
    proof {
        assert(updates_view(updates@) =~= Seq::<(int, ModificationV)>::empty());
    }
    while i < schema.fields.len()
        invariant
            i <= schema.fields@.len(),
            params.wf(),
            schema@.fields.len() == schema.fields@.len(),
            spec_result == extract_fields_rec(
                schema@.fields,
                0,
                set_fields_view(q.fields@),
                old(params).remaining(),
                Seq::empty(),
            ),
            spec_result == extract_fields_rec(
                schema@.fields,
                i as int,
                set_fields_view(fields@),
                params.remaining(),
                updates_view(updates@),
            ),
        decreases schema.fields@.len() - i,
    {
        let field = &schema.fields[i];
        let ghost fv = set_fields_view(fields@);
        let ghost name = field@.column.name;
        proof {
            assert(schema@.fields[i as int] == field@);
        }
        match find_set_position(&fields, &field.column.name) {
            None => {},
            Some(j) => {
                proof {
                    lemma_find_set_in_bounds(fv, name, 0);
                }
                let removed = fields.swap_remove(j);
                proof {
                    assert(set_fields_view(fields@) =~= seq_swap_remove(fv, j as int));
                    assert(removed.1@ == fv[j as int].1);
                }
                let ghost p0 = params.remaining();
                let ghost prev_updates = updates_view(updates@);
                match set_step_exec(&removed.1, &field.column, params) {
                    Ok(m) => {
                        updates.push((i, m));
                        proof {
                            assert(updates_view(updates@) =~= prev_updates.push(
                                (i as int, m@),
                            ));
                        }
                    },
                    Err(e) => {
                        proof {
                            assert(spec_result == Err::<
                                (Seq<(int, ModificationV)>, Seq<ValueV>),
                                _,
                            >(e));
                        }
                        return Err(e);
                    },
                }
            },
        }
        i = i + 1;
    }
    Ok(updates)
}

} // verus!

verus! {

/// The effect on the column-to-value map and the parameter values of one
/// supported `UPDATE` `WHERE` tree: only `AND`-joined
/// `column = literal-or-placeholder` equalities are supported, each column
/// bound at most once.
pub open spec fn walk_where_rec(
    c: CondV,
    map: Seq<(Seq<char>, ValueV)>,
    params: Seq<ValueV>,
) -> Result<(Seq<(Seq<char>, ValueV)>, Seq<ValueV>), Fatal>
    decreases c,
{
    match c {
        CondV::ComparisonOp(op, left, right) => {
            if op == Operator::Equal && as_field(*left) is Some && as_literal(*right) is Some {
                let name = as_field(*left)->Some_0.name;
                let lit = as_literal(*right)->Some_0;
                if lit is Placeholder {
                    if params.len() == 0 {
                        Err(Fatal::ParameterUnderflow)
                    } else if tuple_has_col(map, name) {
                        Err(Fatal::AmbiguousCondition)
                    } else {
                        Ok((map.push((name, params[0])), params.drop_first()))
                    }
                } else {
                    match lit_value(lit) {
                        None => Err(Fatal::UnsupportedStatementShape),
                        Some(v) => {
                            if tuple_has_col(map, name) {
                                Err(Fatal::AmbiguousCondition)
                            } else {
                                Ok((map.push((name, v)), params))
                            }
                        },
                    }
                }
            } else {
                Err(Fatal::UnsupportedStatementShape)
            }
        },
        CondV::LogicalOp(op, left, right) => {
            if op == Operator::And {
                match walk_where_rec(*left, map, params) {
                    Ok((m1, p1)) => walk_where_rec(*right, m1, p1),
                    other => other,
                }
            } else {
                Err(Fatal::UnsupportedStatementShape)
            }
        },
        _ => Err(Fatal::UnsupportedStatementShape),
    }
}

/// Walks the `WHERE` tree of an `UPDATE`, binding each `column = value`
/// equality into the column-to-value map and consuming bound values for
/// placeholders.
pub fn walk_update_where(
    col2v: &mut Vec<(String, Value)>,
    params: &mut ParamStream,
    expr: &ConditionExpression,
) -> (r: Result<(), Fatal>)
    requires
        old(params).wf(),
    ensures
        final(params).wf(),
        match walk_where_rec(
            expr@,
            crate::flatten::tuple_entries_view(old(col2v)@),
            old(params).remaining(),
        ) {
            Ok(mp) => r == Ok::<(), Fatal>(()) && crate::flatten::tuple_entries_view(
                final(col2v)@,
            ) == mp.0 && final(params).remaining() == mp.1,
            Err(e) => r == Err::<(), Fatal>(e),
        },
    decreases *expr,
{
    match expr {
        ConditionExpression::ComparisonOp(tree) => {
            proof {
                assert(expr@ == CondV::ComparisonOp(
                    tree.operator,
                    Box::new((*tree.left)@),
                    Box::new((*tree.right)@),
                ));
            }
            if !matches!(tree.operator, Operator::Equal) {
                return Err(Fatal::UnsupportedStatementShape);
            }
            match &*tree.left {
                ConditionExpression::Base(ConditionBase::Field(c)) => match &*tree.right {
                    ConditionExpression::Base(ConditionBase::Literal(l)) => {
                        proof {
                            assert(as_field((*tree.left)@) == Some(c@));
                            assert(as_literal((*tree.right)@) == Some(l@));
                        }
                        let v: Value = if literal_is_placeholder(l) {
                            match params.next() {
                                Some(v) => v,
                                None => {
                                    return Err(Fatal::ParameterUnderflow);
                                },
                            }
                        } else {
                            match crate::values::value_of_literal(l) {
                                Some(v) => v,
                                None => {
                                    return Err(Fatal::UnsupportedStatementShape);
                                },
                            }
                        };
                        if crate::flatten::tuple_has_col_exec(col2v, &c.name) {
                            return Err(Fatal::AmbiguousCondition);
                        }
                        let ghost prev = crate::flatten::tuple_entries_view(col2v@);
                        let ghost vv = v@;
                        col2v.push((c.name.clone(), v));
                        proof {
                            assert(crate::flatten::tuple_entries_view(col2v@) =~= prev.push(
                                (c@.name, vv),
                            ));
                        }
                        Ok(())
                    },
                    _ => Err(Fatal::UnsupportedStatementShape),
                },
                _ => Err(Fatal::UnsupportedStatementShape),
            }
        },
        ConditionExpression::LogicalOp(tree) => {
            proof {
                assert(expr@ == CondV::LogicalOp(
                    tree.operator,
                    Box::new((*tree.left)@),
                    Box::new((*tree.right)@),
                ));
            }
            if matches!(tree.operator, Operator::And) {
                walk_update_where(col2v, params, &tree.left)?;
                walk_update_where(col2v, params, &tree.right)
            } else {
                Err(Fatal::UnsupportedStatementShape)
            }
        },
        _ => Err(Fatal::UnsupportedStatementShape),
    }
}

/// The first map entry at or after `k` bound to the named column.
pub open spec fn map_find_from(
    map: Seq<(Seq<char>, ValueV)>,
    name: Seq<char>,
    k: int,
) -> Option<int>
    decreases map.len() - k,
{
    if k < 0 || k >= map.len() {
        None
    } else if map[k].0 == name {
        Some(k)
    } else {
        map_find_from(map, name, k + 1)
    }
}

/// A found map position lies within the map and is bound to the name.
proof fn lemma_map_find_in_bounds(map: Seq<(Seq<char>, ValueV)>, name: Seq<char>, k0: int)
    ensures
        match map_find_from(map, name, k0) {
            Some(k) => k0 <= k < map.len() && map[k].0 == name,
            None => true,
        },
    decreases map.len() - k0,
{
    if k0 < 0 || k0 >= map.len() {
    } else if map[k0].0 == name {
    } else {
        lemma_map_find_in_bounds(map, name, k0 + 1);
    }
}

/// The key tuple pulled from the column-to-value map, one value per
/// primary-key column in key order, each binding consumed as it is used.
pub open spec fn key_from_map_rec(
    pkey: Seq<(int, ColumnV)>,
    i: int,
    map: Seq<(Seq<char>, ValueV)>,
    acc: Seq<ValueV>,
) -> Result<Seq<ValueV>, Fatal>
    decreases pkey.len() - i,
{
    if i < 0 || i >= pkey.len() {
        Ok(acc)
    } else {
        match map_find_from(map, pkey[i].1.name, 0) {
            None => Err(Fatal::IncompleteCompoundKey),
            Some(k) => key_from_map_rec(pkey, i + 1, map.remove(k), acc.push(map[k].1)),
        }
    }
}

/// Finds the first map entry bound to the named column.
fn map_find_exec(map: &Vec<(String, Value)>, name: &String) -> (r: Option<usize>)
    ensures
        match r {
            Some(k) => map_find_from(crate::flatten::tuple_entries_view(map@), name@, 0) == Some(
                k as int,
            ),
            None => map_find_from(crate::flatten::tuple_entries_view(map@), name@, 0) is None,
        },
{
    let ghost mv = crate::flatten::tuple_entries_view(map@);
    let mut k: usize = 0;
    while k < map.len()
        invariant
            k <= map@.len(),
            mv == crate::flatten::tuple_entries_view(map@),
            map_find_from(mv, name@, 0) == map_find_from(mv, name@, k as int),
        decreases map@.len() - k,
    {
        if map[k].0.eq(name) {
            proof {
                assert(mv[k as int].0 == name@);
            }
            return Some(k);
        }
        proof {
            assert(mv[k as int].0 != name@);
        }
        k = k + 1;
    }
    None
}

/// Pulls the primary key's values out of the column-to-value map, in
/// primary-key order; a key column with no binding is fatal.
fn key_from_map(pkey: &Vec<(usize, Column)>, map: &mut Vec<(String, Value)>) -> (r: Result<
    Vec<Value>,
    Fatal,
>)
    ensures
        match key_from_map_rec(
            pk_view(pkey@),
            0,
            crate::flatten::tuple_entries_view(old(map)@),
            Seq::empty(),
        ) {
            Ok(key) => r matches Ok(v) && values_view(v@) == key,
            Err(e) => r == Err::<Vec<Value>, Fatal>(e),
        },
{
    let ghost spec_result = key_from_map_rec(
        pk_view(pkey@),
        0,
        crate::flatten::tuple_entries_view(map@),
        Seq::empty(),
    );
    let mut out: Vec<Value> = Vec::new();
    let mut i: usize = 0;
    proof {
        assert(values_view(out@) =~= Seq::<ValueV>::empty());
    }
    while i < pkey.len()
        invariant
            i <= pkey@.len(),
            pk_view(pkey@).len() == pkey@.len(),
            spec_result == key_from_map_rec(
                pk_view(pkey@),
                0,
                crate::flatten::tuple_entries_view(old(map)@),
                Seq::empty(),
            ),
            spec_result == key_from_map_rec(
                pk_view(pkey@),
                i as int,
                crate::flatten::tuple_entries_view(map@),
                values_view(out@),
            ),
        decreases pkey@.len() - i,
    {
        let ghost mv = crate::flatten::tuple_entries_view(map@);
        let ghost name = pk_view(pkey@)[i as int].1.name;
        proof {
            assert(pkey@[i as int].1@.name == name);
        }
        match map_find_exec(map, &pkey[i].1.name) {
            None => {
                return Err(Fatal::IncompleteCompoundKey);
            },
            Some(k) => {
                proof {
                    lemma_map_find_in_bounds(mv, name, 0);
                }
                let ghost prev = values_view(out@);
                let ghost m0 = map@;
                let entry = map.remove(k);
                out.push(entry.1);
                proof {
                    assert forall|j: int|
                        0 <= j < crate::flatten::tuple_entries_view(map@).len() implies
                        crate::flatten::tuple_entries_view(map@)[j] == mv.remove(k as int)[j] by {
                        if j < k {
                            assert(map@[j] == m0[j]);
                        } else {
                            assert(map@[j] == m0[j + 1]);
                        }
                    }
                    assert(crate::flatten::tuple_entries_view(map@) =~= mv.remove(k as int));
                    assert(values_view(out@) =~= prev.push(mv[k as int].1));
                }
            },
        }
        i = i + 1;
    }
    Ok(out)
}

/// What extracting an `UPDATE` yields: the primary-key tuple of the
/// addressed row and the ordered field modifications, with the bound
/// values consumed first by the `SET` walk and then by the `WHERE` walk.
pub open spec fn extract_update_spec(
    q: crate::stmt::UpdateStatementV,
    params: Seq<ValueV>,
    schema: CreateTableStatementV,
) -> Result<(Seq<ValueV>, Seq<(int, ModificationV)>), Fatal> {
    match extract_fields_rec(schema.fields, 0, q.fields, params, Seq::empty()) {
        Err(e) => Err(e),
        Ok((updates, params2)) => match q.where_clause {
            None => Err(Fatal::UnsupportedStatementShape),
            Some(w) => match walk_where_rec(w, Seq::empty(), params2) {
                Err(e) => Err(e),
                Ok(mp) => match key_from_map_rec(primary_key_spec(schema), 0, mp.0, Seq::empty()) {
                    Err(e) => Err(e),
                    Ok(key) => Ok((key, updates)),
                },
            },
        },
    }
}

/// Whether an executable extraction result realizes the model result.
pub open spec fn extract_result_matches(
    r: Result<(Vec<Value>, Vec<(usize, Modification)>), Fatal>,
    m: Result<(Seq<ValueV>, Seq<(int, ModificationV)>), Fatal>,
) -> bool {
    match r {
        Ok(p) => m == Ok::<_, Fatal>((values_view(p.0@), updates_view(p.1@))),
        Err(e) => m == Err::<(Seq<ValueV>, Seq<(int, ModificationV)>), _>(e),
    }
}

/// Extracts from an `UPDATE` statement the primary-key tuple of the row it
/// addresses and the ordered list of field modifications, consuming the
/// bound parameter values in the order the placeholders appear: `SET`
/// clause first, then `WHERE` clause. An `UPDATE` without a `WHERE`, a
/// `WHERE` outside the supported `AND`-of-equalities shape, a column bound
/// twice, a missing key binding, and a parameter shortfall are all fatal.
pub fn extract_update(
    q: &UpdateStatement,
    params: Vec<Value>,
    schema: &CreateTableStatement,
) -> (r: Result<(Vec<Value>, Vec<(usize, Modification)>), Fatal>)
    ensures
        extract_result_matches(r, extract_update_spec(q@, values_view(params@), schema@)),
{
    let ghost params0 = values_view(params@);
    let mut stream = ParamStream::from_values(params);
    let updates = match extract_update_params_and_fields(q, &mut stream, schema) {
        Ok(u) => u,
        Err(e) => {
            return Err(e);
        },
    };
    let pkey = get_primary_key(schema);
    match &q.where_clause {
        None => {
            proof {
                assert(q@.where_clause is None);
            }
            Err(Fatal::UnsupportedStatementShape)
        },
        Some(w) => {
            proof {
                assert(q@.where_clause == Some((*w)@));
            }
            let mut col2v: Vec<(String, Value)> = Vec::new();
            proof {
                assert(crate::flatten::tuple_entries_view(col2v@) =~= Seq::<
                    (Seq<char>, ValueV),
                >::empty());
            }
            match walk_update_where(&mut col2v, &mut stream, w) {
                Err(e) => {
                    return Err(e);
                },
                Ok(u) => u,
            };
            match key_from_map(&pkey, &mut col2v) {
                Err(e) => Err(e),
                Ok(key) => Ok((key, updates)),
            }
        },
    }
}

} // verus!
