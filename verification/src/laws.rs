use vstd::prelude::*;

use crate::Fatal;
use crate::ast::{ColumnV, CondV, ConditionBaseV, Operator, col_id_eq};
use crate::flatten::{
    FlatStep, TupleV, apply_leaf, flatten_rec, flatten_spec, pkey_contains, tuples_complete,
};
use crate::stmt::CreateTableStatementV;
use crate::update::{extract_result_matches, extract_update_spec};
use crate::values::{LiteralV, Modification, Value, ValueV, lit_value};

verus! {

/// The condition leaf `column = literal`.
pub open spec fn eq_leaf(c: ColumnV, l: LiteralV) -> CondV {
    CondV::ComparisonOp(
        Operator::Equal,
        Box::new(CondV::Base(ConditionBaseV::Field(c))),
        Box::new(CondV::Base(ConditionBaseV::Literal(l))),
    )
}

/// The condition `left AND right`.
pub open spec fn and_node(l: CondV, r: CondV) -> CondV {
    CondV::LogicalOp(Operator::And, Box::new(l), Box::new(r))
}

/// The condition `left OR right`.
pub open spec fn or_node(l: CondV, r: CondV) -> CondV {
    CondV::LogicalOp(Operator::Or, Box::new(l), Box::new(r))
}

/// On a single-column key, `a = X` flattens to exactly the one key tuple
/// `[X]`.
pub proof fn lemma_flatten_single_equality(key: ColumnV, c: ColumnV, l: LiteralV, v: ValueV)
    requires
        col_id_eq(key, c),
        lit_value(l) == Some(v),
    ensures
        flatten_spec(eq_leaf(c, l), seq![key]) == Ok::<_, Fatal>(Some(seq![seq![v]])),
{
    let pkey = seq![key];
    let empty = Seq::<TupleV>::empty();
    assert(col_id_eq(pkey[0], c));
    assert(pkey_contains(pkey, c));
    lemma_apply_leaf_empty(pkey.len(), c.name, v);
    let s = apply_leaf(empty, pkey.len(), c.name, v);
    assert(flatten_rec(eq_leaf(c, l), pkey, empty) == FlatStep::Keys(s));
    assert(tuples_complete(s, pkey.len()));
    lemma_singleton_ordered(key, c, v);
    assert(crate::flatten::tuples_ordered(s, pkey));
    assert(crate::flatten::keys_in_key_order(s, pkey) =~= seq![seq![v]]);
}

/// Filling a slot in the empty working set starts one singleton tuple.
proof fn lemma_apply_leaf_empty(klen: nat, name: Seq<char>, v: ValueV)
    ensures
        apply_leaf(Seq::<TupleV>::empty(), klen, name, v) == seq![seq![(name, v)]],
{
    let empty = Seq::<TupleV>::empty();
    assert(crate::flatten::find_open_slot(empty, klen, name) is None);
    assert(!empty.contains(seq![(name, v)]));
    assert(apply_leaf(empty, klen, name, v) =~= seq![seq![(name, v)]]);
}

/// A singleton tuple for the key column reorders to the one-value key
/// tuple.
proof fn lemma_singleton_ordered(key: ColumnV, c: ColumnV, v: ValueV)
    requires
        col_id_eq(key, c),
    ensures
        crate::flatten::ordered_tuple(seq![(c.name, v)], seq![key]) == Some(seq![v]),
{
    let t: crate::flatten::TupleV = seq![(c.name, v)];
    let pkey = seq![key];
    assert(t[0].0 == pkey[0].name);
    assert(crate::flatten::tuple_find_from(t, pkey[0].name, 0) == Some(0int));
    assert(crate::flatten::ordered_tuple_upto(t, pkey, 0) == Some(Seq::<ValueV>::empty()));
    assert(Seq::<ValueV>::empty().push(v) =~= seq![v]);
    assert(crate::flatten::ordered_tuple_upto(t, pkey, 1) == Some(seq![v]));
}

/// `a = X OR a = X` collapses to the single key tuple `[X]`: the working
/// set deduplicates.
pub proof fn lemma_flatten_or_dedup(key: ColumnV, c: ColumnV, l: LiteralV, v: ValueV)
    requires
        col_id_eq(key, c),
        lit_value(l) == Some(v),
    ensures
        flatten_spec(or_node(eq_leaf(c, l), eq_leaf(c, l)), seq![key]) == Ok::<_, Fatal>(
            Some(seq![seq![v]]),
        ),
{
    let pkey = seq![key];
    let empty = Seq::<TupleV>::empty();
    assert(col_id_eq(pkey[0], c));
    assert(pkey_contains(pkey, c));
    lemma_apply_leaf_empty(pkey.len(), c.name, v);
    let s1 = seq![seq![(c.name, v)]];
    assert(flatten_rec(eq_leaf(c, l), pkey, empty) == FlatStep::Keys(s1));
    // The second leaf finds no open slot (the tuple is complete) and the
    // new singleton equals the existing tuple, so the set is unchanged.
    assert(!crate::flatten::open_slot(s1, pkey.len(), c.name, 0));
    assert(crate::flatten::find_open_slot_from(s1, pkey.len(), c.name, 1) is None);
    assert(crate::flatten::find_open_slot(s1, pkey.len(), c.name) is None);
    assert(s1.contains(seq![(c.name, v)]));
    assert(apply_leaf(s1, pkey.len(), c.name, v) == s1);
    assert(flatten_rec(eq_leaf(c, l), pkey, s1) == FlatStep::Keys(s1));
    assert(flatten_rec(or_node(eq_leaf(c, l), eq_leaf(c, l)), pkey, empty) == FlatStep::Keys(s1));
    assert(tuples_complete(s1, pkey.len()));
    lemma_singleton_ordered(key, c, v);
    assert(crate::flatten::tuples_ordered(s1, pkey));
    assert(crate::flatten::keys_in_key_order(s1, pkey) =~= seq![seq![v]]);
}

/// `a = X AND a = X` is valid and yields the single key tuple `[X]`.
pub proof fn lemma_flatten_and_idempotent(key: ColumnV, c: ColumnV, l: LiteralV, v: ValueV)
    requires
        col_id_eq(key, c),
        lit_value(l) == Some(v),
    ensures
        flatten_spec(and_node(eq_leaf(c, l), eq_leaf(c, l)), seq![key]) == Ok::<_, Fatal>(
            Some(seq![seq![v]]),
        ),
{
    let pkey = seq![key];
    let empty = Seq::<TupleV>::empty();
    assert(col_id_eq(pkey[0], c));
    assert(pkey_contains(pkey, c));
    lemma_apply_leaf_empty(pkey.len(), c.name, v);
    let s1 = seq![seq![(c.name, v)]];
    assert(flatten_rec(eq_leaf(c, l), pkey, empty) == FlatStep::Keys(s1));
    assert(!crate::flatten::open_slot(s1, pkey.len(), c.name, 0));
    assert(crate::flatten::find_open_slot_from(s1, pkey.len(), c.name, 1) is None);
    assert(crate::flatten::find_open_slot(s1, pkey.len(), c.name) is None);
    assert(s1.contains(seq![(c.name, v)]));
    assert(apply_leaf(s1, pkey.len(), c.name, v) == s1);
    assert(flatten_rec(eq_leaf(c, l), pkey, s1) == FlatStep::Keys(s1));
    assert(flatten_rec(and_node(eq_leaf(c, l), eq_leaf(c, l)), pkey, empty) == FlatStep::Keys(s1));
    assert(tuples_complete(s1, pkey.len()));
    lemma_singleton_ordered(key, c, v);
    assert(crate::flatten::tuples_ordered(s1, pkey));
    assert(crate::flatten::keys_in_key_order(s1, pkey) =~= seq![seq![v]]);
}

/// `a = X AND a = Y` with two different values cannot be reduced: the
/// conflicting fill attempts are rejected as ambiguous.
pub proof fn lemma_flatten_and_conflict(
    key: ColumnV,
    c: ColumnV,
    l1: LiteralV,
    l2: LiteralV,
    v1: ValueV,
    v2: ValueV,
)
    requires
        col_id_eq(key, c),
        lit_value(l1) == Some(v1),
        lit_value(l2) == Some(v2),
        v1 != v2,
    ensures
        flatten_spec(and_node(eq_leaf(c, l1), eq_leaf(c, l2)), seq![key]) == Ok::<
            Option<Seq<Seq<ValueV>>>,
            Fatal,
        >(None),
{
    let pkey = seq![key];
    let empty = Seq::<TupleV>::empty();
    assert(col_id_eq(pkey[0], c));
    assert(pkey_contains(pkey, c));
    lemma_apply_leaf_empty(pkey.len(), c.name, v1);
    let s1 = seq![seq![(c.name, v1)]];
    assert(flatten_rec(eq_leaf(c, l1), pkey, empty) == FlatStep::Keys(s1));
    assert(!crate::flatten::open_slot(s1, pkey.len(), c.name, 0));
    assert(crate::flatten::find_open_slot_from(s1, pkey.len(), c.name, 1) is None);
    assert(crate::flatten::find_open_slot(s1, pkey.len(), c.name) is None);
    assert(seq![(c.name, v1)] != seq![(c.name, v2)]) by {
        assert(seq![(c.name, v1)][0] == (c.name, v1));
        assert(seq![(c.name, v2)][0] == (c.name, v2));
    }
    assert(!s1.contains(seq![(c.name, v2)])) by {
        assert(forall|i: int| 0 <= i < s1.len() ==> #[trigger] s1[i] == seq![(c.name, v1)]);
    }
    let s2 = s1.push(seq![(c.name, v2)]);
    assert(apply_leaf(s1, pkey.len(), c.name, v2) == s2);
    assert(flatten_rec(eq_leaf(c, l2), pkey, s1) == FlatStep::Keys(s2));
    assert(s2.len() == 2 && empty.len() == 0 && s1.len() == 1);
    assert(flatten_rec(and_node(eq_leaf(c, l1), eq_leaf(c, l2)), pkey, empty)
        == FlatStep::Invalid(s2));
}

/// `a = X OR a = Y` with two different values yields exactly the two key
/// tuples `[X]` and `[Y]`.
pub proof fn lemma_flatten_or_two_keys(
    key: ColumnV,
    c: ColumnV,
    l1: LiteralV,
    l2: LiteralV,
    v1: ValueV,
    v2: ValueV,
)
    requires
        col_id_eq(key, c),
        lit_value(l1) == Some(v1),
        lit_value(l2) == Some(v2),
        v1 != v2,
    ensures
        flatten_spec(or_node(eq_leaf(c, l1), eq_leaf(c, l2)), seq![key]) == Ok::<_, Fatal>(
            Some(seq![seq![v1], seq![v2]]),
        ),
{
    let pkey = seq![key];
    let empty = Seq::<TupleV>::empty();
    assert(col_id_eq(pkey[0], c));
    assert(pkey_contains(pkey, c));
    lemma_apply_leaf_empty(pkey.len(), c.name, v1);
    let s1 = seq![seq![(c.name, v1)]];
    assert(flatten_rec(eq_leaf(c, l1), pkey, empty) == FlatStep::Keys(s1));
    assert(!crate::flatten::open_slot(s1, pkey.len(), c.name, 0));
    assert(crate::flatten::find_open_slot_from(s1, pkey.len(), c.name, 1) is None);
    assert(crate::flatten::find_open_slot(s1, pkey.len(), c.name) is None);
    assert(seq![(c.name, v1)] != seq![(c.name, v2)]) by {
        assert(seq![(c.name, v1)][0] == (c.name, v1));
        assert(seq![(c.name, v2)][0] == (c.name, v2));
    }
    assert(!s1.contains(seq![(c.name, v2)])) by {
        assert(forall|i: int| 0 <= i < s1.len() ==> #[trigger] s1[i] == seq![(c.name, v1)]);
    }
    let s2 = s1.push(seq![(c.name, v2)]);
    assert(apply_leaf(s1, pkey.len(), c.name, v2) == s2);
    assert(flatten_rec(eq_leaf(c, l2), pkey, s1) == FlatStep::Keys(s2));
    assert(flatten_rec(or_node(eq_leaf(c, l1), eq_leaf(c, l2)), pkey, empty) == FlatStep::Keys(
        s2,
    ));
    assert(tuples_complete(s2, pkey.len()));
    lemma_singleton_ordered(key, c, v1);
    lemma_singleton_ordered(key, c, v2);
    assert(crate::flatten::ordered_tuple(s2[0], pkey) == Some(seq![v1]));
    assert(crate::flatten::ordered_tuple(s2[1], pkey) == Some(seq![v2]));
    assert(crate::flatten::tuples_ordered(s2, pkey));
    assert(crate::flatten::keys_in_key_order(s2, pkey) =~= seq![seq![v1], seq![v2]]);
}

/// A tautology on the right of an `AND` contributes nothing: `a = X AND
/// L = L` yields exactly `[X]`.
pub proof fn lemma_flatten_and_tautology(key: ColumnV, c: ColumnV, l: LiteralV, v: ValueV, t: LiteralV)
    requires
        col_id_eq(key, c),
        lit_value(l) == Some(v),
    ensures
        flatten_spec(
            and_node(
                eq_leaf(c, l),
                CondV::ComparisonOp(
                    Operator::Equal,
                    Box::new(CondV::Base(ConditionBaseV::Literal(t))),
                    Box::new(CondV::Base(ConditionBaseV::Literal(t))),
                ),
            ),
            seq![key],
        ) == Ok::<_, Fatal>(Some(seq![seq![v]])),
{
    let pkey = seq![key];
    let empty = Seq::<TupleV>::empty();
    assert(col_id_eq(pkey[0], c));
    assert(pkey_contains(pkey, c));
    lemma_apply_leaf_empty(pkey.len(), c.name, v);
    let s1 = seq![seq![(c.name, v)]];
    assert(flatten_rec(eq_leaf(c, l), pkey, empty) == FlatStep::Keys(s1));
    let taut = CondV::ComparisonOp(
        Operator::Equal,
        Box::new(CondV::Base(ConditionBaseV::Literal(t))),
        Box::new(CondV::Base(ConditionBaseV::Literal(t))),
    );
    assert(flatten_rec(taut, pkey, s1) == FlatStep::Keys(s1));
    assert(flatten_rec(and_node(eq_leaf(c, l), taut), pkey, empty) == FlatStep::Keys(s1));
    assert(tuples_complete(s1, pkey.len()));
    lemma_singleton_ordered(key, c, v);
    assert(crate::flatten::tuples_ordered(s1, pkey));
    assert(crate::flatten::keys_in_key_order(s1, pkey) =~= seq![seq![v]]);
}

/// A predicate on a column outside the primary key is fatal: whatever the
/// key, an equality on a non-key column reduces to `NonKeyPredicate`, for
/// `UPDATE` and `DELETE` alike, since both flatten the same tree.
pub proof fn lemma_flatten_non_key_fatal(pkey: Seq<ColumnV>, c: ColumnV, l: LiteralV)
    requires
        !pkey_contains(pkey, c),
    ensures
        flatten_spec(eq_leaf(c, l), pkey) == Err::<Option<Seq<Seq<ValueV>>>, _>(
            Fatal::NonKeyPredicate,
        ),
{
}

/// A compound key with only one column supplied is fatal: on a key of two
/// or more columns, a lone equality leaves the tuple incomplete.
pub proof fn lemma_flatten_partial_key_fatal(pkey: Seq<ColumnV>, c: ColumnV, l: LiteralV, v: ValueV)
    requires
        pkey.len() >= 2,
        pkey_contains(pkey, c),
        lit_value(l) == Some(v),
    ensures
        flatten_spec(eq_leaf(c, l), pkey) == Err::<Option<Seq<Seq<ValueV>>>, _>(
            Fatal::IncompleteCompoundKey,
        ),
{
    lemma_apply_leaf_empty(pkey.len(), c.name, v);
    let s = seq![seq![(c.name, v)]];
    assert(flatten_rec(eq_leaf(c, l), pkey, Seq::<TupleV>::empty()) == FlatStep::Keys(s));
    assert(s[0].len() == 1);
    assert(!tuples_complete(s, pkey.len()));
}

/// Extraction is deterministic: two results derived from the same
/// statement, the same bound parameters, and the same schema agree — the
/// same key tuple, the same modification list, or the same error.
pub proof fn lemma_extract_update_deterministic(
    q: crate::stmt::UpdateStatementV,
    params: Seq<ValueV>,
    schema: CreateTableStatementV,
    r1: Result<(Vec<Value>, Vec<(usize, Modification)>), Fatal>,
    r2: Result<(Vec<Value>, Vec<(usize, Modification)>), Fatal>,
)
    requires
        extract_result_matches(r1, extract_update_spec(q, params, schema)),
        extract_result_matches(r2, extract_update_spec(q, params, schema)),
    ensures
        match r1 {
            Ok(a) => r2 matches Ok(b) && crate::values::values_view(a.0@)
                == crate::values::values_view(b.0@) && crate::update::updates_view(a.1@)
                == crate::update::updates_view(b.1@),
            Err(e1) => r2 matches Err(e2) && e1 == e2,
        },
{
}

} // verus!

verus! {

/// Whether no two tuples of the working set are equal: the set semantics
/// the flattener maintains.
pub open spec fn tuple_set_unique(s: crate::flatten::TupleSetV) -> bool {
    forall|i: int, j: int| 0 <= i < j < s.len() ==> (#[trigger] s[i]) != (#[trigger] s[j])
}

/// Set-semantic insertion preserves uniqueness.
proof fn lemma_set_insert_unique(s: crate::flatten::TupleSetV, t: TupleV)
    requires
        tuple_set_unique(s),
    ensures
        tuple_set_unique(crate::flatten::set_insert(s, t)),
{
    if !s.contains(t) {
        let s2 = s.push(t);
        assert forall|i: int, j: int| 0 <= i < j < s2.len() implies (#[trigger] s2[i]) != (
        #[trigger] s2[j]) by {
            if j < s.len() {
                assert(s2[i] == s[i] && s2[j] == s[j]);
            } else {
                assert(s2[j] == t);
                assert(s2[i] == s[i]);
                assert(!s.contains(t));
            }
        }
    }
}

/// Removing a tuple preserves uniqueness.
proof fn lemma_remove_unique(s: crate::flatten::TupleSetV, k: int)
    requires
        tuple_set_unique(s),
        0 <= k < s.len(),
    ensures
        tuple_set_unique(s.remove(k)),
{
    let s2 = s.remove(k);
    assert forall|i: int, j: int| 0 <= i < j < s2.len() implies (#[trigger] s2[i]) != (
    #[trigger] s2[j]) by {
        let i0: int = if i < k { i } else { i + 1 };
        let j0: int = if j < k { j } else { j + 1 };
        assert(s2[i] == s[i0]);
        assert(s2[j] == s[j0]);
    }
}

/// One slot fill preserves the working set's uniqueness.
proof fn lemma_apply_leaf_unique(
    s: crate::flatten::TupleSetV,
    klen: nat,
    name: Seq<char>,
    v: ValueV,
)
    requires
        tuple_set_unique(s),
    ensures
        tuple_set_unique(apply_leaf(s, klen, name, v)),
{
    crate::flatten::lemma_find_open_slot_in_bounds(s, klen, name, 0);
    match crate::flatten::find_open_slot(s, klen, name) {
        Some(i) => {
            lemma_remove_unique(s, i);
            lemma_set_insert_unique(s.remove(i), s[i].push((name, v)));
        },
        None => {
            lemma_set_insert_unique(s, seq![(name, v)]);
        },
    }
}

/// Every working set the flattener produces is free of duplicate tuples:
/// the accumulation has set semantics, whatever the condition tree.
pub proof fn lemma_flatten_set_semantics(
    c: CondV,
    pkey: Seq<ColumnV>,
    s: crate::flatten::TupleSetV,
)
    requires
        tuple_set_unique(s),
    ensures
        (flatten_rec(c, pkey, s) matches FlatStep::Keys(s2) ==> tuple_set_unique(s2)),
    decreases c,
{
    match c {
        CondV::ComparisonOp(op, left, right) => {
            if op == Operator::Equal {
                if crate::flatten::as_field(*left) is Some && crate::flatten::as_literal(
                    *right,
                ) is Some {
                    let col = crate::flatten::as_field(*left)->Some_0;
                    let lit = crate::flatten::as_literal(*right)->Some_0;
                    if pkey_contains(pkey, col) && lit_value(lit) is Some {
                        lemma_apply_leaf_unique(
                            s,
                            pkey.len(),
                            col.name,
                            lit_value(lit)->Some_0,
                        );
                    }
                } else if crate::flatten::as_literal(*left) is Some && crate::flatten::as_field(
                    *right,
                ) is Some {
                    let col = crate::flatten::as_field(*right)->Some_0;
                    let lit = crate::flatten::as_literal(*left)->Some_0;
                    if pkey_contains(pkey, col) && lit_value(lit) is Some {
                        lemma_apply_leaf_unique(
                            s,
                            pkey.len(),
                            col.name,
                            lit_value(lit)->Some_0,
                        );
                    }
                }
            }
        },
        CondV::LogicalOp(op, left, right) => {
            if op == Operator::And || op == Operator::Or {
                lemma_flatten_set_semantics(*left, pkey, s);
                match flatten_rec(*left, pkey, s) {
                    FlatStep::Keys(s1) => {
                        lemma_flatten_set_semantics(*right, pkey, s1);
                    },
                    _ => {},
                }
            }
        },
        _ => {},
    }
}

} // verus!
