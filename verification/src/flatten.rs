use vstd::prelude::*;

use crate::Fatal;
use crate::ast::{
    Column, ColumnV, CondV, ConditionBase, ConditionBaseV, ConditionExpression, Operator,
    col_id_eq, column_id_eq, columns_view,
};
use crate::values::{Value, ValueV, lit_value, value_eq, value_of_literal, literal_eq, clone_value};

verus! {

/// The model of one key tuple under construction: column name and value,
/// in the order the slots were filled.
pub type TupleV = Seq<(Seq<char>, ValueV)>;

/// The model of the working set of key tuples: insertion-ordered, free of
/// duplicates by construction.
pub type TupleSetV = Seq<TupleV>;

/// The model of one in-progress key tuple.
pub open spec fn tuple_entries_view(s: Seq<(String, Value)>) -> TupleV {
    Seq::new(s.len(), |i: int| (s[i].0@, s[i].1@))
}

/// The model of the working set.
pub open spec fn tuple_set_view(s: Seq<Vec<(String, Value)>>) -> TupleSetV {
    Seq::new(s.len(), |i: int| tuple_entries_view(s[i]@))
}

/// Whether the column list contains a column with the given identity.
pub open spec fn pkey_contains(pkey: Seq<ColumnV>, c: ColumnV) -> bool {
    exists|i: int| 0 <= i < pkey.len() && col_id_eq(pkey[i], c)
}

/// Whether a tuple already holds a value for the named column.
pub open spec fn tuple_has_col(t: TupleV, name: Seq<char>) -> bool {
    exists|i: int| 0 <= i < t.len() && t[i].0 == name
}

/// Whether the tuple at index `i` has room for the named column: it is
/// shorter than the key and does not mention the column yet.
pub open spec fn open_slot(s: TupleSetV, klen: nat, name: Seq<char>, i: int) -> bool {
    0 <= i < s.len() && s[i].len() < klen && !tuple_has_col(s[i], name)
}

/// The first open slot at or after index `i`, if any.
pub open spec fn find_open_slot_from(s: TupleSetV, klen: nat, name: Seq<char>, i: int) -> Option<
    int,
>
    decreases s.len() - i,
{
    if i < 0 || i >= s.len() {
        None
    } else if open_slot(s, klen, name, i) {
        Some(i)
    } else {
        find_open_slot_from(s, klen, name, i + 1)
    }
}

/// The first open slot in the working set, if any.
pub open spec fn find_open_slot(s: TupleSetV, klen: nat, name: Seq<char>) -> Option<int> {
    find_open_slot_from(s, klen, name, 0)
}

/// Set-semantic insertion: an already-present tuple is not added again.
pub open spec fn set_insert(s: TupleSetV, t: TupleV) -> TupleSetV {
    if s.contains(t) {
        s
    } else {
        s.push(t)
    }
}

/// The effect of one valid key-column equality on the working set: the
/// first tuple with room for the column gains the entry, or a new singleton
/// tuple is started.
pub open spec fn apply_leaf(s: TupleSetV, klen: nat, name: Seq<char>, v: ValueV) -> TupleSetV {
    match find_open_slot(s, klen, name) {
        Some(i) => set_insert(s.remove(i), s[i].push((name, v))),
        None => set_insert(s, seq![(name, v)]),
    }
}

/// The outcome of walking one condition subtree.
pub enum FlatStep {
    /// The subtree is valid and leaves the working set in this state.
    Keys(TupleSetV),
    /// The subtree cannot be reduced to key tuples; the walk leaves the
    /// working set in this state.
    Invalid(TupleSetV),
    /// The subtree is fatally malformed for a keyed mutation.
    Fatal(Fatal),
}

/// The column of a condition leaf, when the node is a bare field.
pub open spec fn as_field(c: CondV) -> Option<ColumnV> {
    match c {
        CondV::Base(ConditionBaseV::Field(col)) => Some(col),
        _ => None,
    }
}

/// The literal of a condition leaf, when the node is a bare literal.
pub open spec fn as_literal(c: CondV) -> Option<crate::values::LiteralV> {
    match c {
        CondV::Base(ConditionBaseV::Literal(l)) => Some(l),
        _ => None,
    }
}

/// The effect of a `column = literal` leaf: fatal when the column is not
/// part of the primary key or the literal carries no value, otherwise a
/// slot fill.
pub open spec fn leaf_step(
    s: TupleSetV,
    pkey: Seq<ColumnV>,
    c: ColumnV,
    l: crate::values::LiteralV,
) -> FlatStep {
    if !pkey_contains(pkey, c) {
        FlatStep::Fatal(Fatal::NonKeyPredicate)
    } else {
        match lit_value(l) {
            Some(v) => FlatStep::Keys(apply_leaf(s, pkey.len(), c.name, v)),
            None => FlatStep::Fatal(Fatal::UnsupportedStatementShape),
        }
    }
}

/// Walks a condition tree, gradually filling primary-key slots.
///
/// An equality between a key column and a literal fills a slot; an equality
/// between two identical literals is a tautology and changes nothing; an
/// `AND` must not grow the working set on its right side beyond what its
/// left side produced; an `OR` walks both sides unconditionally and is
/// valid only when both are, so a fatal condition on either side surfaces.
/// Any other shape is invalid and leaves the working set as it stands.
pub open spec fn flatten_rec(c: CondV, pkey: Seq<ColumnV>, s: TupleSetV) -> FlatStep
    decreases c,
{
    match c {
        CondV::ComparisonOp(op, left, right) => {
            if op != Operator::Equal {
                FlatStep::Invalid(s)
            } else if as_field(*left) is Some && as_literal(*right) is Some {
                leaf_step(s, pkey, as_field(*left)->Some_0, as_literal(*right)->Some_0)
            } else if as_literal(*left) is Some && as_field(*right) is Some {
                leaf_step(s, pkey, as_field(*right)->Some_0, as_literal(*left)->Some_0)
            } else if as_literal(*left) is Some && as_literal(*right) is Some {
                if as_literal(*left)->Some_0 == as_literal(*right)->Some_0 {
                    FlatStep::Keys(s)
                } else {
                    FlatStep::Invalid(s)
                }
            } else {
                FlatStep::Invalid(s)
            }
        },
        CondV::LogicalOp(op, left, right) => {
            if op == Operator::And {
                match flatten_rec(*left, pkey, s) {
                    FlatStep::Keys(s1) => match flatten_rec(*right, pkey, s1) {
                        FlatStep::Keys(s2) => {
                            if s2.len() == s.len() || s2.len() == s1.len() {
                                FlatStep::Keys(s2)
                            } else {
                                FlatStep::Invalid(s2)
                            }
                        },
                        other => other,
                    },
                    other => other,
                }
            } else if op == Operator::Or {
                match flatten_rec(*left, pkey, s) {
                    FlatStep::Fatal(e) => FlatStep::Fatal(e),
                    FlatStep::Keys(s1) => flatten_rec(*right, pkey, s1),
                    FlatStep::Invalid(s1) => match flatten_rec(*right, pkey, s1) {
                        FlatStep::Fatal(e) => FlatStep::Fatal(e),
                        FlatStep::Keys(s2) => FlatStep::Invalid(s2),
                        FlatStep::Invalid(s2) => FlatStep::Invalid(s2),
                    },
                }
            } else {
                FlatStep::Invalid(s)
            }
        },
        _ => FlatStep::Invalid(s),
    }
}

/// Whether every tuple covers the whole key.
pub open spec fn tuples_complete(s: TupleSetV, klen: nat) -> bool {
    forall|i: int| 0 <= i < s.len() ==> (#[trigger] s[i]).len() == klen
}

/// The first entry of a tuple, at or after `j`, bound to the named column.
pub open spec fn tuple_find_from(t: TupleV, name: Seq<char>, j: int) -> Option<int>
    decreases t.len() - j,
{
    if j < 0 || j >= t.len() {
        None
    } else if t[j].0 == name {
        Some(j)
    } else {
        tuple_find_from(t, name, j + 1)
    }
}

/// The tuple's values for the first `i` primary-key columns, in key order,
/// or `None` when a key column has no entry in the tuple.
pub open spec fn ordered_tuple_upto(t: TupleV, pkey: Seq<ColumnV>, i: int) -> Option<Seq<ValueV>>
    decreases i,
{
    if i <= 0 {
        Some(Seq::empty())
    } else {
        match ordered_tuple_upto(t, pkey, i - 1) {
            None => None,
            Some(acc) => match tuple_find_from(t, pkey[i - 1].name, 0) {
                None => None,
                Some(j) => Some(acc.push(t[j].1)),
            },
        }
    }
}

/// The tuple's values rearranged into primary-key column order, or `None`
/// when some key column has no entry.
pub open spec fn ordered_tuple(t: TupleV, pkey: Seq<ColumnV>) -> Option<Seq<ValueV>> {
    ordered_tuple_upto(t, pkey, pkey.len() as int)
}

/// Whether every tuple of the working set has a value for every key column.
pub open spec fn tuples_ordered(s: TupleSetV, pkey: Seq<ColumnV>) -> bool {
    forall|i: int| 0 <= i < s.len() ==> (#[trigger] ordered_tuple(s[i], pkey)) is Some
}

/// The working set's tuples as bare key tuples, each in primary-key column
/// order.
pub open spec fn keys_in_key_order(s: TupleSetV, pkey: Seq<ColumnV>) -> Seq<Seq<ValueV>> {
    Seq::new(s.len(), |i: int| ordered_tuple(s[i], pkey)->Some_0)
}

/// What flattening a whole `WHERE` tree yields: the set of key tuples,
/// each in primary-key column order, `None` when the tree cannot be
/// reduced, or a fatal error.
pub open spec fn flatten_spec(c: CondV, pkey: Seq<ColumnV>) -> Result<
    Option<Seq<Seq<ValueV>>>,
    Fatal,
> {
    match flatten_rec(c, pkey, Seq::empty()) {
        FlatStep::Fatal(e) => Err(e),
        FlatStep::Invalid(_) => Ok(None),
        FlatStep::Keys(s) => {
            if tuples_complete(s, pkey.len()) && tuples_ordered(s, pkey) {
                Ok(Some(keys_in_key_order(s, pkey)))
            } else {
                Err(Fatal::IncompleteCompoundKey)
            }
        },
    }
}

/// The model of the produced key tuples.
pub open spec fn keys_view(v: Seq<Vec<Value>>) -> Seq<Seq<ValueV>> {
    Seq::new(v.len(), |i: int| Seq::new(v[i]@.len(), |j: int| v[i]@[j]@))
}

/// Whether an executable flattening result realizes the model result.
pub open spec fn flatten_result_matches(
    r: Result<Option<Vec<Vec<Value>>>, Fatal>,
    m: Result<Option<Seq<Seq<ValueV>>>, Fatal>,
) -> bool {
    match r {
        Ok(None) => m == Ok::<Option<Seq<Seq<ValueV>>>, Fatal>(None),
        Ok(Some(v)) => m == Ok::<Option<Seq<Seq<ValueV>>>, Fatal>(Some(keys_view(v@))),
        Err(e) => m == Err::<Option<Seq<Seq<ValueV>>>, Fatal>(e),
    }
}

/// Whether the column list holds a column with the same identity.
fn pkey_contains_exec(pkey: &Vec<Column>, c: &Column) -> (r: bool)
    ensures
        r == pkey_contains(columns_view(pkey@), c@),
{
    let mut i: usize = 0;
    while i < pkey.len()
        invariant
            i <= pkey.len(),
            forall|j: int| 0 <= j < i ==> !col_id_eq(columns_view(pkey@)[j], c@),
        decreases pkey.len() - i,
    {
        if column_id_eq(&pkey[i], c) {
            proof {
                assert(col_id_eq(columns_view(pkey@)[i as int], c@));
            }
            return true;
        }
        i = i + 1;
    }
    false
}

/// Whether the tuple already holds a value for the named column.
pub(crate) fn tuple_has_col_exec(t: &Vec<(String, Value)>, name: &String) -> (r: bool)
    ensures
        r == tuple_has_col(tuple_entries_view(t@), name@),
{
    let mut i: usize = 0;
    while i < t.len()
        invariant
            i <= t.len(),
            forall|j: int| 0 <= j < i ==> tuple_entries_view(t@)[j].0 != name@,
        decreases t.len() - i,
    {
        if t[i].0.eq(name) {
            proof {
                assert(tuple_entries_view(t@)[i as int].0 == name@);
            }
            return true;
        }
        i = i + 1;
    }
    false
}

/// Compares two in-progress tuples by contents.
fn tuple_eq(a: &Vec<(String, Value)>, b: &Vec<(String, Value)>) -> (r: bool)
    ensures
        r == (tuple_entries_view(a@) == tuple_entries_view(b@)),
{
    if a.len() != b.len() {
        proof {
            assert(tuple_entries_view(a@).len() != tuple_entries_view(b@).len());
        }
        return false;
    }
    let mut i: usize = 0;
    while i < a.len()
        invariant
            i <= a.len(),
            a@.len() == b@.len(),
            forall|j: int| 0 <= j < i ==> tuple_entries_view(a@)[j] == tuple_entries_view(b@)[j],
        decreases a.len() - i,
    {
        let names_agree = a[i].0.eq(&b[i].0);
        let values_agree = value_eq(&a[i].1, &b[i].1);
        if !(names_agree && values_agree) {
            proof {
                assert(tuple_entries_view(a@)[i as int] != tuple_entries_view(b@)[i as int]);
            }
            return false;
        }
        i = i + 1;
    }
    proof {
        assert(tuple_entries_view(a@) =~= tuple_entries_view(b@));
    }
    true
}

/// Whether the working set already contains an equal tuple.
fn set_contains_exec(s: &Vec<Vec<(String, Value)>>, t: &Vec<(String, Value)>) -> (r: bool)
    ensures
        r == tuple_set_view(s@).contains(tuple_entries_view(t@)),
{
    let mut i: usize = 0;
    while i < s.len()
        invariant
            i <= s.len(),
            forall|j: int| 0 <= j < i ==> tuple_set_view(s@)[j] != tuple_entries_view(t@),
        decreases s.len() - i,
    {
        if tuple_eq(&s[i], t) {
            proof {
                assert(tuple_set_view(s@)[i as int] == tuple_entries_view(t@));
            }
            return true;
        }
        i = i + 1;
    }
    proof {
        assert(!tuple_set_view(s@).contains(tuple_entries_view(t@)));
    }
    false
}

/// Finds the first tuple with room for the named column.
fn find_open_slot_exec(s: &Vec<Vec<(String, Value)>>, klen: usize, name: &String) -> (r: Option<
    usize,
>)
    ensures
        match r {
            Some(i) => find_open_slot(tuple_set_view(s@), klen as nat, name@) == Some(i as int),
            None => find_open_slot(tuple_set_view(s@), klen as nat, name@) is None,
        },
{
    let ghost sv = tuple_set_view(s@);
    let mut i: usize = 0;
    while i < s.len()
        invariant
            i <= s.len(),
            sv == tuple_set_view(s@),
            find_open_slot(sv, klen as nat, name@) == find_open_slot_from(
                sv,
                klen as nat,
                name@,
                i as int,
            ),
        decreases s.len() - i,
    {
        let short = s[i].len() < klen;
        let occupied = tuple_has_col_exec(&s[i], name);
        if short && !occupied {
            proof {
                assert(open_slot(sv, klen as nat, name@, i as int));
            }
            return Some(i);
        }
        proof {
            assert(!open_slot(sv, klen as nat, name@, i as int));
        }
        i = i + 1;
    }
    None
}

/// A slot returned by the open-slot search lies within the working set.
pub(crate) proof fn lemma_find_open_slot_in_bounds(s: TupleSetV, klen: nat, name: Seq<char>, i0: int)
    ensures
        match find_open_slot_from(s, klen, name, i0) {
            Some(i) => open_slot(s, klen, name, i) && i0 <= i,
            None => true,
        },
    decreases s.len() - i0,
{
    if i0 < 0 || i0 >= s.len() {
    } else if open_slot(s, klen, name, i0) {
    } else {
        lemma_find_open_slot_in_bounds(s, klen, name, i0 + 1);
    }
}

/// Inserts one `column = value` slot fill into the working set, realizing
/// `apply_leaf` on the model.
fn apply_leaf_exec(s: &mut Vec<Vec<(String, Value)>>, klen: usize, name: &String, v: Value)
    ensures
        tuple_set_view(final(s)@) == apply_leaf(
            tuple_set_view(old(s)@),
            klen as nat,
            name@,
            v@,
        ),
{
    let ghost sv = tuple_set_view(old(s)@);
    let ghost entry = (name@, v@);
    match find_open_slot_exec(s, klen, name) {
        Some(i) => {
            proof {
                lemma_find_open_slot_in_bounds(sv, klen as nat, name@, 0);
                assert(i < s.len());
            }
            let mut t = s.remove(i);
            proof {
                assert forall|j: int| 0 <= j < tuple_set_view(s@).len() implies tuple_set_view(
                    s@,
                )[j] == sv.remove(i as int)[j] by {
                    if j < i {
                        assert(s@[j] == old(s)@[j]);
                    } else {
                        assert(s@[j] == old(s)@[j + 1]);
                    }
                }
                assert(tuple_set_view(s@) =~= sv.remove(i as int));
            }
            t.push((name.clone(), v));
            proof {
                assert(tuple_entries_view(t@) =~= sv[i as int].push(entry));
            }
            if !set_contains_exec(s, &t) {
                s.push(t);
                proof {
                    assert(tuple_set_view(s@) =~= sv.remove(i as int).push(
                        sv[i as int].push(entry),
                    ));
                }
            } else {
                proof {
                    assert(tuple_set_view(s@) == set_insert(
                        sv.remove(i as int),
                        sv[i as int].push(entry),
                    ));
                }
            }
        },
        None => {
            let mut t: Vec<(String, Value)> = Vec::new();
            t.push((name.clone(), v));
            proof {
                assert(tuple_entries_view(t@) =~= seq![entry]);
            }
            if !set_contains_exec(s, &t) {
                s.push(t);
                proof {
                    assert(tuple_set_view(s@) =~= sv.push(seq![entry]));
                }
            }
        },
    }
}

/// Handles one `column = literal` leaf, realizing `leaf_step` on the model.
fn flatten_leaf(
    c: &Column,
    l: &crate::values::Literal,
    pkey: &Vec<Column>,
    flattened: &mut Vec<Vec<(String, Value)>>,
) -> (r: Result<bool, Fatal>)
    ensures
        match leaf_step(tuple_set_view(old(flattened)@), columns_view(pkey@), c@, l@) {
            FlatStep::Keys(s2) => r == Ok::<bool, Fatal>(true) && tuple_set_view(
                final(flattened)@,
            ) == s2,
            FlatStep::Invalid(_) => r == Ok::<bool, Fatal>(false),
            FlatStep::Fatal(e) => r == Err::<bool, Fatal>(e),
        },
{
    if !pkey_contains_exec(pkey, c) {
        return Err(Fatal::NonKeyPredicate);
    }
    match value_of_literal(l) {
        Some(v) => {
            apply_leaf_exec(flattened, pkey.len(), &c.name, v);
            Ok(true)
        },
        None => Err(Fatal::UnsupportedStatementShape),
    }
}

/// Walks a `WHERE` tree for an `UPDATE`/`DELETE`, filling primary-key
/// slots in the working set. Returns `Ok(true)` when the tree is valid,
/// `Ok(false)` when it cannot be reduced, and a fatal error when it
/// references a non-key column or an unsupported literal.
fn do_flatten_conditional(
    cond: &ConditionExpression,
    pkey: &Vec<Column>,
    flattened: &mut Vec<Vec<(String, Value)>>,
) -> (r: Result<bool, Fatal>)
    ensures
        match flatten_rec(cond@, columns_view(pkey@), tuple_set_view(old(flattened)@)) {
            FlatStep::Keys(s2) => r == Ok::<bool, Fatal>(true) && tuple_set_view(
                final(flattened)@,
            ) == s2,
            FlatStep::Invalid(s2) => r == Ok::<bool, Fatal>(false) && tuple_set_view(
                final(flattened)@,
            ) == s2,
            FlatStep::Fatal(e) => r == Err::<bool, Fatal>(e),
        },
    decreases *cond,
{
    match cond {
        ConditionExpression::ComparisonOp(tree) => {
            proof {
                assert(cond@ == CondV::ComparisonOp(
                    tree.operator,
                    Box::new((*tree.left)@),
                    Box::new((*tree.right)@),
                ));
            }
            if !matches!(tree.operator, Operator::Equal) {
                return Ok(false);
            }
            match &*tree.left {
                ConditionExpression::Base(ConditionBase::Field(c)) => match &*tree.right {
                    ConditionExpression::Base(ConditionBase::Literal(l)) => {
                        proof {
                            assert(as_field((*tree.left)@) == Some(c@));
                            assert(as_literal((*tree.right)@) == Some(l@));
                        }
                        flatten_leaf(c, l, pkey, flattened)
                    },
                    _ => {
                        proof {
                            assert(as_literal((*tree.right)@) is None);
                            assert(as_literal((*tree.left)@) is None);
                        }
                        Ok(false)
                    },
                },
                ConditionExpression::Base(ConditionBase::Literal(l)) => match &*tree.right {
                    ConditionExpression::Base(ConditionBase::Field(c)) => {
                        proof {
                            assert(as_literal((*tree.left)@) == Some(l@));
                            assert(as_field((*tree.right)@) == Some(c@));
                        }
                        flatten_leaf(c, l, pkey, flattened)
                    },
                    ConditionExpression::Base(ConditionBase::Literal(b)) => {
                        proof {
                            assert(as_literal((*tree.left)@) == Some(l@));
                            assert(as_literal((*tree.right)@) == Some(b@));
                        }
                        if literal_eq(l, b) {
                            Ok(true)
                        } else {
                            Ok(false)
                        }
                    },
                    _ => {
                        proof {
                            assert(as_literal((*tree.right)@) is None && as_field(
                                (*tree.right)@,
                            ) is None);
                        }
                        Ok(false)
                    },
                },
                _ => {
                    proof {
                        assert(as_literal((*tree.left)@) is None && as_field(
                            (*tree.left)@,
                        ) is None);
                    }
                    Ok(false)
                },
            }
        },
        ConditionExpression::LogicalOp(tree) => {
            proof {
                assert(cond@ == CondV::LogicalOp(
                    tree.operator,
                    Box::new((*tree.left)@),
                    Box::new((*tree.right)@),
                ));
            }
            if matches!(tree.operator, Operator::And) {
                let pre_count = flattened.len();
                match do_flatten_conditional(&tree.left, pkey, flattened)? {
                    true => {
                        let count = flattened.len();
                        match do_flatten_conditional(&tree.right, pkey, flattened)? {
                            true => {
                                if flattened.len() == pre_count || flattened.len() == count {
                                    Ok(true)
                                } else {
                                    Ok(false)
                                }
                            },
                            false => Ok(false),
                        }
                    },
                    false => Ok(false),
                }
            } else if matches!(tree.operator, Operator::Or) {
                match do_flatten_conditional(&tree.left, pkey, flattened)? {
                    true => do_flatten_conditional(&tree.right, pkey, flattened),
                    false => {
                        do_flatten_conditional(&tree.right, pkey, flattened)?;
                        Ok(false)
                    },
                }
            } else {
                Ok(false)
            }
        },
        _ => Ok(false),
    }
}

/// An entry found by the tuple search lies within the tuple and is bound
/// to the name.
pub(crate) proof fn lemma_tuple_find_in_bounds(t: TupleV, name: Seq<char>, j0: int)
    ensures
        match tuple_find_from(t, name, j0) {
            Some(j) => j0 <= j < t.len() && t[j].0 == name,
            None => true,
        },
    decreases t.len() - j0,
{
    if j0 < 0 || j0 >= t.len() {
    } else if t[j0].0 == name {
    } else {
        lemma_tuple_find_in_bounds(t, name, j0 + 1);
    }
}

/// Once a key column has no entry in the tuple, the ordered tuple does not
/// exist.
proof fn lemma_ordered_tuple_none(t: TupleV, pkey: Seq<ColumnV>, m: int, n: int)
    requires
        ordered_tuple_upto(t, pkey, m) is None,
        m <= n,
    ensures
        ordered_tuple_upto(t, pkey, n) is None,
    decreases n - m,
{
    if m < n {
        lemma_ordered_tuple_none(t, pkey, m, n - 1);
    }
}

/// Finds the first entry of the tuple bound to the named column.
fn tuple_find_exec(t: &Vec<(String, Value)>, name: &String) -> (r: Option<usize>)
    ensures
        match r {
            Some(j) => tuple_find_from(tuple_entries_view(t@), name@, 0) == Some(j as int),
            None => tuple_find_from(tuple_entries_view(t@), name@, 0) is None,
        },
{
    let ghost tv = tuple_entries_view(t@);
    let mut j: usize = 0;
    while j < t.len()
        invariant
            j <= t@.len(),
            tv == tuple_entries_view(t@),
            tuple_find_from(tv, name@, 0) == tuple_find_from(tv, name@, j as int),
        decreases t@.len() - j,
    {
        if t[j].0.eq(name) {
            proof {
                assert(tv[j as int].0 == name@);
            }
            return Some(j);
        }
        proof {
            assert(tv[j as int].0 != name@);
        }
        j = j + 1;
    }
    None
}

/// Reduces a `WHERE` tree for an `UPDATE`/`DELETE` statement to the set of
/// primary-key tuples the statement addresses.
///
/// Returns `Ok(Some(keys))` with one fully-populated tuple per addressed
/// row, free of duplicates, each tuple holding one value per primary-key
/// column in primary-key order; `Ok(None)` when the tree cannot be reduced
/// to key tuples (an unsupported or ambiguous shape);
/// `Err(Fatal::NonKeyPredicate)` when an equality references a column
/// outside the primary key; `Err(Fatal::UnsupportedStatementShape)` when a
/// key equality carries a valueless literal; and
/// `Err(Fatal::IncompleteCompoundKey)` when a reduced tuple does not cover
/// every key column.
pub fn flatten_conditional(cond: &ConditionExpression, pkey: &Vec<Column>) -> (r: Result<
    Option<Vec<Vec<Value>>>,
    Fatal,
>)
    ensures
        flatten_result_matches(r, flatten_spec(cond@, columns_view(pkey@))),
{
    let mut flattened: Vec<Vec<(String, Value)>> = Vec::new();
    proof {
        assert(tuple_set_view(flattened@) =~= Seq::<TupleV>::empty());
    }
    match do_flatten_conditional(cond, pkey, &mut flattened) {
        Err(e) => Err(e),
        Ok(false) => Ok(None),
        Ok(true) => {
            let ghost s = tuple_set_view(flattened@);
            let ghost pkv = columns_view(pkey@);
            let mut keys: Vec<Vec<Value>> = Vec::new();
            let mut i: usize = 0;
            while i < flattened.len()
                invariant
                    i <= flattened.len(),
                    s == tuple_set_view(flattened@),
                    pkv == columns_view(pkey@),
                    pkv.len() == pkey@.len(),
                    flatten_rec(cond@, pkv, Seq::empty()) == FlatStep::Keys(s),
                    keys@.len() == i,
                    forall|j: int| 0 <= j < i ==> #[trigger] s[j].len() == pkv.len(),
                    forall|j: int|
                        0 <= j < i ==> (#[trigger] ordered_tuple(s[j], pkv)) is Some,
                    forall|j: int|
                        0 <= j < i ==> keys_view(keys@)[j] == ordered_tuple(s[j], pkv)->Some_0,
                decreases flattened.len() - i,
            {
                if flattened[i].len() != pkey.len() {
                    proof {
                        assert(s[i as int].len() == flattened@[i as int]@.len());
                        assert(s[i as int].len() != pkv.len());
                        assert(!tuples_complete(s, pkv.len()));
                    }
                    return Err(Fatal::IncompleteCompoundKey);
                }
                let ghost tv = s[i as int];
                let tuple = &flattened[i];
                proof {
                    assert(tv == tuple_entries_view(tuple@));
                }
                let mut row: Vec<Value> = Vec::new();
                let mut k: usize = 0;
                proof {
                    assert(Seq::new(row@.len(), |m: int| row@[m]@) =~= Seq::<ValueV>::empty());
                }
                while k < pkey.len()
                    invariant
                        i < flattened@.len(),
                        k <= pkey@.len(),
                        s == tuple_set_view(flattened@),
                        pkv == columns_view(pkey@),
                        pkv.len() == pkey@.len(),
                        flatten_rec(cond@, pkv, Seq::empty()) == FlatStep::Keys(s),
                        tv == s[i as int],
                        tuple == &flattened[i as int],
                        tv == tuple_entries_view(tuple@),
                        ordered_tuple_upto(tv, pkv, k as int) == Some(
                            Seq::new(row@.len(), |m: int| row@[m]@),
                        ),
                    decreases pkey@.len() - k,
                {
                    let ghost prev = Seq::new(row@.len(), |m: int| row@[m]@);
                    proof {
                        assert(pkv[k as int].name == pkey@[k as int]@.name);
                    }
                    match tuple_find_exec(tuple, &pkey[k].name) {
                        None => {
                            proof {
                                assert(ordered_tuple_upto(tv, pkv, k as int + 1) is None);
                                lemma_ordered_tuple_none(
                                    tv,
                                    pkv,
                                    k as int + 1,
                                    pkv.len() as int,
                                );
                                assert(!(ordered_tuple(s[i as int], pkv) is Some));
                                assert(!tuples_ordered(s, pkv));
                            }
                            return Err(Fatal::IncompleteCompoundKey);
                        },
                        Some(j) => {
                            proof {
                                lemma_tuple_find_in_bounds(tv, pkv[k as int].name, 0);
                            }
                            let v = clone_value(&tuple[j].1);
                            row.push(v);
                            k = k + 1;
                            proof {
                                assert(Seq::new(row@.len(), |m: int| row@[m]@) =~= prev.push(
                                    tv[j as int].1,
                                ));
                            }
                        },
                    }
                }
                let ghost rv = Seq::new(row@.len(), |m: int| row@[m]@);
                let ghost prev_keys = keys@;
                proof {
                    assert(ordered_tuple(tv, pkv) == Some(rv));
                }
                keys.push(row);
                i = i + 1;
                proof {
                    assert forall|j: int| 0 <= j < i implies keys_view(keys@)[j] == ordered_tuple(
                        s[j],
                        pkv,
                    )->Some_0 by {
                        if j < i - 1 {
                            assert(keys@[j] == prev_keys[j]);
                            assert(keys_view(keys@)[j] =~= keys_view(prev_keys)[j]);
                        } else {
                            assert(keys_view(keys@)[j] =~= rv);
                        }
                    }
                }
            }
            proof {
                assert(tuples_complete(s, pkv.len()));
                assert(tuples_ordered(s, pkv));
                assert(keys_view(keys@) =~= keys_in_key_order(s, pkv));
            }
            Ok(Some(keys))
        },
    }
}

} // verus!
