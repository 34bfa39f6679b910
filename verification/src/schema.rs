use vstd::prelude::*;

use crate::ast::{Column, ColumnV, col_id_eq, column_id_eq, clone_column, columns_view};
use crate::stmt::{
    ColumnConstraint, CreateTableStatement, CreateTableStatementV, TableKey, TableKeyV,
};

verus! {

/// Whether a constraint list carries the inline primary-key marker.
pub open spec fn has_pk_constraint(cs: Seq<crate::stmt::ColumnConstraintV>) -> bool {
    exists|j: int| 0 <= j < cs.len() && cs[j] is PrimaryKey
}

/// Whether a key-clause column list names the given column.
pub open spec fn pk_cols_contain(cols: Seq<ColumnV>, c: ColumnV) -> bool {
    exists|j: int| 0 <= j < cols.len() && col_id_eq(cols[j], c)
}

/// Whether any `PRIMARY KEY (...)` clause of the schema names the column.
pub open spec fn keys_declare_pk(keys: Option<Seq<TableKeyV>>, c: ColumnV) -> bool {
    match keys {
        Some(ks) => exists|j: int|
            0 <= j < ks.len() && ((#[trigger] ks[j]) matches TableKeyV::PrimaryKey(cols)
                && pk_cols_contain(cols, c)),
        None => false,
    }
}

/// Whether field `i` of the schema belongs to the primary key, by an
/// inline constraint, by a key clause, or by both.
pub open spec fn is_pk_field(s: CreateTableStatementV, i: int) -> bool {
    has_pk_constraint(s.fields[i].constraints) || keys_declare_pk(s.keys, s.fields[i].column)
}

/// The primary key drawn from the first `n` fields, in declaration order.
pub open spec fn primary_key_spec_upto(s: CreateTableStatementV, n: int) -> Seq<(int, ColumnV)>
    decreases n,
{
    if n <= 0 {
        Seq::empty()
    } else if is_pk_field(s, n - 1) {
        primary_key_spec_upto(s, n - 1).push((n - 1, s.fields[n - 1].column))
    } else {
        primary_key_spec_upto(s, n - 1)
    }
}

/// The primary key of a schema: each key column with its field index, in
/// schema declaration order.
pub open spec fn primary_key_spec(s: CreateTableStatementV) -> Seq<(int, ColumnV)> {
    primary_key_spec_upto(s, s.fields.len() as int)
}

/// The model of an executable primary-key list.
pub open spec fn pk_view(v: Seq<(usize, Column)>) -> Seq<(int, ColumnV)> {
    Seq::new(v.len(), |i: int| (v[i].0 as int, v[i].1@))
}

/// The primary key named by two different declaration styles is the same
/// key: any two schemas over the same columns that mark the same fields —
/// one inline, one through a key clause, or both redundantly — have equal
/// primary keys.
pub proof fn lemma_primary_key_independent_of_declaration(
    a: CreateTableStatementV,
    b: CreateTableStatementV,
)
    requires
        a.fields.len() == b.fields.len(),
        forall|i: int| 0 <= i < a.fields.len() ==> (#[trigger] a.fields[i]).column
            == b.fields[i].column,
        forall|i: int| 0 <= i < a.fields.len() ==> (is_pk_field(a, i) <==> is_pk_field(b, i)),
    ensures
        primary_key_spec(a) == primary_key_spec(b),
{
    lemma_primary_key_upto_independent(a, b, a.fields.len() as int);
}

proof fn lemma_primary_key_upto_independent(
    a: CreateTableStatementV,
    b: CreateTableStatementV,
    n: int,
)
    requires
        n <= a.fields.len(),
        a.fields.len() == b.fields.len(),
        forall|i: int| 0 <= i < a.fields.len() ==> (#[trigger] a.fields[i]).column
            == b.fields[i].column,
        forall|i: int| 0 <= i < a.fields.len() ==> (is_pk_field(a, i) <==> is_pk_field(b, i)),
    ensures
        primary_key_spec_upto(a, n) == primary_key_spec_upto(b, n),
    decreases n,
{
    if n > 0 {
        lemma_primary_key_upto_independent(a, b, n - 1);
    }
}

/// Whether the constraint list carries the inline primary-key marker.
fn constraints_have_pk(cs: &Vec<ColumnConstraint>) -> (r: bool)
    ensures
        r == has_pk_constraint(Seq::new(cs@.len(), |i: int| cs@[i]@)),
{
    let ghost csv = Seq::new(cs@.len(), |i: int| cs@[i]@);
    let mut i: usize = 0;
    while i < cs.len()
        invariant
            i <= cs.len(),
            csv == Seq::new(cs@.len(), |k: int| cs@[k]@),
            forall|j: int| 0 <= j < i ==> !(csv[j] is PrimaryKey),
        decreases cs.len() - i,
    {
        if matches!(&cs[i], ColumnConstraint::PrimaryKey) {
            proof {
                assert(csv[i as int] is PrimaryKey);
            }
            return true;
        }
        i = i + 1;
    }
    false
}

/// Whether the key-clause column list names the column.
fn pk_cols_contain_exec(cols: &Vec<Column>, c: &Column) -> (r: bool)
    ensures
        r == pk_cols_contain(columns_view(cols@), c@),
{
    let mut i: usize = 0;
    while i < cols.len()
        invariant
            i <= cols.len(),
            forall|j: int| 0 <= j < i ==> !col_id_eq(columns_view(cols@)[j], c@),
        decreases cols.len() - i,
    {
        if column_id_eq(&cols[i], c) {
            proof {
                assert(col_id_eq(columns_view(cols@)[i as int], c@));
            }
            return true;
        }
        i = i + 1;
    }
    false
}

/// Whether any `PRIMARY KEY (...)` clause among the keys names the column.
fn keys_declare_pk_exec(keys: &Option<Vec<TableKey>>, c: &Column) -> (r: bool)
    ensures
        r == keys_declare_pk(
            match *keys {
                Some(ks) => Some(Seq::new(ks@.len(), |i: int| ks@[i]@)),
                None => None,
            },
            c@,
        ),
{
    match keys {
        None => false,
        Some(ks) => keys_list_declare_pk(ks, c),
    }
}

/// Whether any `PRIMARY KEY (...)` clause in the list names the column.
fn keys_list_declare_pk(ks: &Vec<TableKey>, c: &Column) -> (r: bool)
    ensures
        r == keys_declare_pk(Some(Seq::new(ks@.len(), |i: int| ks@[i]@)), c@),
{
    let ghost ksv = Seq::new(ks@.len(), |i: int| ks@[i]@);
    let mut i: usize = 0;
    while i < ks.len()
        invariant
            i <= ks.len(),
            ksv == Seq::new(ks@.len(), |k: int| ks@[k]@),
            forall|j: int|
                0 <= j < i ==> !((#[trigger] ksv[j]) matches TableKeyV::PrimaryKey(cols)
                    && pk_cols_contain(cols, c@)),
        decreases ks.len() - i,
    {
        match &ks[i] {
            TableKey::PrimaryKey(cols) => {
                if pk_cols_contain_exec(cols, c) {
                    proof {
                        assert(ksv[i as int] == TableKeyV::PrimaryKey(columns_view(cols@)));
                        assert(exists|j: int|
                            0 <= j < ksv.len() && ((#[trigger] ksv[j])
                                matches TableKeyV::PrimaryKey(cs) && pk_cols_contain(cs, c@)));
                    }
                    return true;
                }
            },
            _ => {},
        }
        i = i + 1;
    }
    false
}

/// Finds the primary key of a table: every column marked by an inline
/// primary-key constraint or named in a `PRIMARY KEY (...)` clause, paired
/// with its field index, in schema declaration order. A schema with no
/// such column yields the empty list.
pub fn get_primary_key(schema: &CreateTableStatement) -> (r: Vec<(usize, Column)>)
    ensures
        pk_view(r@) == primary_key_spec(schema@),
{
    let mut out: Vec<(usize, Column)> = Vec::new();
    let mut i: usize = 0;
    proof {
        assert(pk_view(out@) =~= primary_key_spec_upto(schema@, 0));
    }
    while i < schema.fields.len()
        invariant
            i <= schema.fields.len(),
            pk_view(out@) == primary_key_spec_upto(schema@, i as int),
        decreases schema.fields.len() - i,
    {
        let field = &schema.fields[i];
        proof {
            assert(schema@.fields[i as int] == field@);
        }
        let inline_pk = constraints_have_pk(&field.constraints);
        let keyed_pk = keys_declare_pk_exec(&schema.keys, &field.column);
        proof {
            assert(inline_pk == has_pk_constraint(schema@.fields[i as int].constraints));
            assert(keyed_pk == keys_declare_pk(schema@.keys, schema@.fields[i as int].column));
        }
        if inline_pk || keyed_pk {
            out.push((i, clone_column(&field.column)));
            proof {
                assert(pk_view(out@) =~= primary_key_spec_upto(schema@, i as int + 1));
            }
        } else {
            proof {
                assert(pk_view(out@) =~= primary_key_spec_upto(schema@, i as int + 1));
            }
        }
        i = i + 1;
    }
    out
}

} // verus!
