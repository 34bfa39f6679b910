use vstd::prelude::*;

use crate::ast::{
    ArithmeticBase, ArithmeticExpression, ConditionBase, ConditionExpression, ConditionTree,
    FieldValueExpression, LiteralExpression, column_eq, opt_string_eq,
};
use crate::stmt::{
    FieldDefinitionExpression, GroupByClause, OrderClause, SelectStatement, SelectStatementV,
    Table,
};
use crate::values::{Literal, literal_eq};

verus! {

/// Compares two table references structurally.
pub fn table_eq(a: &Table, b: &Table) -> (r: bool)
    ensures
        r == (a@ == b@),
{
    a.name.eq(&b.name) && opt_string_eq(&a.alias, &b.alias)
}

/// Compares two literal lists elementwise.
pub fn literal_list_eq(a: &Vec<Literal>, b: &Vec<Literal>) -> (r: bool)
    ensures
        r == (crate::ast::lits_view(*a) == crate::ast::lits_view(*b)),
{
    if a.len() != b.len() {
        proof {
            assert(crate::ast::lits_view(*a).len() != crate::ast::lits_view(*b).len());
        }
        return false;
    }
    let mut i: usize = 0;
    while i < a.len()
        invariant
            i <= a@.len(),
            a@.len() == b@.len(),
            forall|j: int|
                0 <= j < i ==> crate::ast::lits_view(*a)[j] == crate::ast::lits_view(*b)[j],
        decreases a@.len() - i,
    {
        if !literal_eq(&a[i], &b[i]) {
            proof {
                assert(crate::ast::lits_view(*a)[i as int] != crate::ast::lits_view(*b)[i as int]);
            }
            return false;
        }
        i = i + 1;
    }
    proof {
        assert(crate::ast::lits_view(*a) =~= crate::ast::lits_view(*b));
    }
    true
}

/// Compares two arithmetic operands structurally.
pub fn arithmetic_base_eq(a: &ArithmeticBase, b: &ArithmeticBase) -> (r: bool)
    ensures
        r == (a@ == b@),
{
    match a {
        ArithmeticBase::Column(x) => match b {
            ArithmeticBase::Column(y) => column_eq(x, y),
            _ => false,
        },
        ArithmeticBase::Scalar(x) => match b {
            ArithmeticBase::Scalar(y) => literal_eq(x, y),
            _ => false,
        },
    }
}

/// Compares two arithmetic expressions structurally.
pub fn arithmetic_eq(a: &ArithmeticExpression, b: &ArithmeticExpression) -> (r: bool)
    ensures
        r == (a@ == b@),
{
    let ops_agree = match a.op {
        crate::ast::ArithmeticOperator::Add => matches!(b.op, crate::ast::ArithmeticOperator::Add),
        crate::ast::ArithmeticOperator::Subtract => matches!(
            b.op,
            crate::ast::ArithmeticOperator::Subtract,
        ),
        crate::ast::ArithmeticOperator::Multiply => matches!(
            b.op,
            crate::ast::ArithmeticOperator::Multiply,
        ),
        crate::ast::ArithmeticOperator::Divide => matches!(
            b.op,
            crate::ast::ArithmeticOperator::Divide,
        ),
    };
    ops_agree && arithmetic_base_eq(&a.left, &b.left) && arithmetic_base_eq(&a.right, &b.right)
        && opt_string_eq(&a.alias, &b.alias)
}

/// Compares two condition leaves structurally.
pub fn condition_base_eq(a: &ConditionBase, b: &ConditionBase) -> (r: bool)
    ensures
        r == (a@ == b@),
{
    match a {
        ConditionBase::Field(x) => match b {
            ConditionBase::Field(y) => column_eq(x, y),
            _ => false,
        },
        ConditionBase::Literal(x) => match b {
            ConditionBase::Literal(y) => literal_eq(x, y),
            _ => false,
        },
        ConditionBase::LiteralList(x) => match b {
            ConditionBase::LiteralList(y) => literal_list_eq(x, y),
            _ => false,
        },
    }
}

/// Compares two operators.
pub fn operator_eq(a: &crate::ast::Operator, b: &crate::ast::Operator) -> (r: bool)
    ensures
        r == (a == b),
{
    match a {
        crate::ast::Operator::Not => matches!(b, crate::ast::Operator::Not),
        crate::ast::Operator::And => matches!(b, crate::ast::Operator::And),
        crate::ast::Operator::Or => matches!(b, crate::ast::Operator::Or),
        crate::ast::Operator::Like => matches!(b, crate::ast::Operator::Like),
        crate::ast::Operator::NotLike => matches!(b, crate::ast::Operator::NotLike),
        crate::ast::Operator::Equal => matches!(b, crate::ast::Operator::Equal),
        crate::ast::Operator::NotEqual => matches!(b, crate::ast::Operator::NotEqual),
        crate::ast::Operator::Greater => matches!(b, crate::ast::Operator::Greater),
        crate::ast::Operator::GreaterOrEqual => matches!(b, crate::ast::Operator::GreaterOrEqual),
        crate::ast::Operator::Less => matches!(b, crate::ast::Operator::Less),
        crate::ast::Operator::LessOrEqual => matches!(b, crate::ast::Operator::LessOrEqual),
        crate::ast::Operator::In => matches!(b, crate::ast::Operator::In),
        crate::ast::Operator::Is => matches!(b, crate::ast::Operator::Is),
    }
}

/// Compares two condition trees structurally.
pub fn cond_eq(a: &ConditionExpression, b: &ConditionExpression) -> (r: bool)
    ensures
        r == (a@ == b@),
    decreases *a,
{
    match a {
        ConditionExpression::ComparisonOp(x) => match b {
            ConditionExpression::ComparisonOp(y) => cond_tree_eq(x, y),
            _ => false,
        },
        ConditionExpression::LogicalOp(x) => match b {
            ConditionExpression::LogicalOp(y) => cond_tree_eq(x, y),
            _ => false,
        },
        ConditionExpression::NegationOp(x) => match b {
            ConditionExpression::NegationOp(y) => cond_eq(x, y),
            _ => false,
        },
        ConditionExpression::Base(x) => match b {
            ConditionExpression::Base(y) => condition_base_eq(x, y),
            _ => false,
        },
        ConditionExpression::Arithmetic(x) => match b {
            ConditionExpression::Arithmetic(y) => arithmetic_eq(x, y),
            _ => false,
        },
        ConditionExpression::Bracketed(x) => match b {
            ConditionExpression::Bracketed(y) => cond_eq(x, y),
            _ => false,
        },
    }
}

/// Compares two interior condition nodes structurally.
pub fn cond_tree_eq(a: &ConditionTree, b: &ConditionTree) -> (r: bool)
    ensures
        r == (a.operator == b.operator && (*a.left)@ == (*b.left)@ && (*a.right)@ == (*b.right)@),
    decreases *a,
{
    operator_eq(&a.operator, &b.operator) && cond_eq(&a.left, &b.left) && cond_eq(
        &a.right,
        &b.right,
    )
}

/// Compares two optional condition trees structurally.
pub fn opt_cond_eq(a: &Option<ConditionExpression>, b: &Option<ConditionExpression>) -> (r: bool)
    ensures
        r == (crate::stmt::opt_cond_view(*a) == crate::stmt::opt_cond_view(*b)),
{
    match a {
        Some(x) => match b {
            Some(y) => cond_eq(x, y),
            None => false,
        },
        None => match b {
            Some(_) => false,
            None => true,
        },
    }
}

/// Compares two projected expressions structurally.
pub fn field_def_eq(a: &FieldDefinitionExpression, b: &FieldDefinitionExpression) -> (r: bool)
    ensures
        r == (a@ == b@),
{
    match a {
        FieldDefinitionExpression::All => matches!(b, FieldDefinitionExpression::All),
        FieldDefinitionExpression::AllInTable(x) => match b {
            FieldDefinitionExpression::AllInTable(y) => x.eq(y),
            _ => false,
        },
        FieldDefinitionExpression::Col(x) => match b {
            FieldDefinitionExpression::Col(y) => column_eq(x, y),
            _ => false,
        },
    }
}

/// Compares two `SELECT` statements structurally: same tables, same
/// projection, same `WHERE` tree, same grouping, ordering and limit.
pub fn select_eq(a: &SelectStatement, b: &SelectStatement) -> (r: bool)
    ensures
        r == (a@ == b@),
{
    if a.distinct != b.distinct {
        return false;
    }
    if a.tables.len() != b.tables.len() {
        proof {
            assert(a@.tables.len() != b@.tables.len());
        }
        return false;
    }
    let mut i: usize = 0;
    while i < a.tables.len()
        invariant
            i <= a.tables@.len(),
            a.tables@.len() == b.tables@.len(),
            forall|j: int| 0 <= j < i ==> a@.tables[j] == b@.tables[j],
        decreases a.tables@.len() - i,
    {
        if !table_eq(&a.tables[i], &b.tables[i]) {
            proof {
                assert(a@.tables[i as int] != b@.tables[i as int]);
            }
            return false;
        }
        i = i + 1;
    }
    proof {
        assert(a@.tables =~= b@.tables);
    }
    if a.fields.len() != b.fields.len() {
        proof {
            assert(a@.fields.len() != b@.fields.len());
        }
        return false;
    }
    let mut k: usize = 0;
    while k < a.fields.len()
        invariant
            k <= a.fields@.len(),
            a.fields@.len() == b.fields@.len(),
            a@.tables == b@.tables,
            forall|j: int| 0 <= j < k ==> a@.fields[j] == b@.fields[j],
        decreases a.fields@.len() - k,
    {
        if !field_def_eq(&a.fields[k], &b.fields[k]) {
            proof {
                assert(a@.fields[k as int] != b@.fields[k as int]);
            }
            return false;
        }
        k = k + 1;
    }
    proof {
        assert(a@.fields =~= b@.fields);
    }
    if !opt_cond_eq(&a.where_clause, &b.where_clause) {
        return false;
    }
    let groups_agree: bool = match &a.group_by {
        Some(x) => match &b.group_by {
            Some(y) => group_by_eq(x, y),
            None => false,
        },
        None => matches!(&b.group_by, None),
    };
    if !groups_agree {
        return false;
    }
    let orders_agree: bool = match &a.order {
        Some(x) => match &b.order {
            Some(y) => order_eq(x, y),
            None => false,
        },
        None => matches!(&b.order, None),
    };
    if !orders_agree {
        return false;
    }
    match &a.limit {
        Some(x) => match &b.limit {
            Some(y) => x.limit == y.limit && x.offset == y.offset,
            None => false,
        },
        None => matches!(&b.limit, None),
    }
}

/// Compares two `GROUP BY` clauses structurally.
pub fn group_by_eq(a: &GroupByClause, b: &GroupByClause) -> (r: bool)
    ensures
        r == (a@ == b@),
{
    if a.columns.len() != b.columns.len() {
        proof {
            assert(a@.columns.len() != b@.columns.len());
        }
        return false;
    }
    let mut i: usize = 0;
    while i < a.columns.len()
        invariant
            i <= a.columns@.len(),
            a.columns@.len() == b.columns@.len(),
            forall|j: int| 0 <= j < i ==> a@.columns[j] == b@.columns[j],
        decreases a.columns@.len() - i,
    {
        if !column_eq(&a.columns[i], &b.columns[i]) {
            proof {
                assert(a@.columns[i as int] != b@.columns[i as int]);
            }
            return false;
        }
        i = i + 1;
    }
    proof {
        assert(a@.columns =~= b@.columns);
    }
    opt_cond_eq(&a.having, &b.having)
}

/// Compares two `ORDER BY` clauses structurally.
pub fn order_eq(a: &OrderClause, b: &OrderClause) -> (r: bool)
    ensures
        r == (a@ == b@),
{
    if a.columns.len() != b.columns.len() {
        proof {
            assert(a@.columns.len() != b@.columns.len());
        }
        return false;
    }
    let mut i: usize = 0;
    while i < a.columns.len()
        invariant
            i <= a.columns@.len(),
            a.columns@.len() == b.columns@.len(),
            forall|j: int| 0 <= j < i ==> a@.columns[j] == b@.columns[j],
        decreases a.columns@.len() - i,
    {
        let pair_a = &a.columns[i];
        let pair_b = &b.columns[i];
        let dirs_agree = match pair_a.1 {
            crate::stmt::OrderType::OrderAscending => matches!(
                pair_b.1,
                crate::stmt::OrderType::OrderAscending,
            ),
            crate::stmt::OrderType::OrderDescending => matches!(
                pair_b.1,
                crate::stmt::OrderType::OrderDescending,
            ),
        };
        if !(column_eq(&pair_a.0, &pair_b.0) && dirs_agree) {
            proof {
                assert(a@.columns[i as int] != b@.columns[i as int]);
            }
            return false;
        }
        i = i + 1;
    }
    proof {
        assert(a@.columns =~= b@.columns);
    }
    true
}

/// The model of the cache's entries, in insertion order.
pub open spec fn cache_view(s: Seq<(SelectStatement, String)>) -> Seq<(SelectStatementV, Seq<char>)> {
    Seq::new(s.len(), |i: int| (s[i].0@, s[i].1@))
}

/// The first cached entry at or after `i` for the statement shape.
pub open spec fn cache_find_from(
    c: Seq<(SelectStatementV, Seq<char>)>,
    q: SelectStatementV,
    i: int,
) -> Option<int>
    decreases c.len() - i,
{
    if i < 0 || i >= c.len() {
        None
    } else if c[i].0 == q {
        Some(i)
    } else {
        cache_find_from(c, q, i + 1)
    }
}

/// The view name registered for the statement shape, if any.
pub open spec fn cache_lookup(c: Seq<(SelectStatementV, Seq<char>)>, q: SelectStatementV) -> Option<
    Seq<char>,
> {
    match cache_find_from(c, q, 0) {
        Some(i) => Some(c[i].1),
        None => None,
    }
}

/// The entries after installing a registration for the shape: unchanged
/// when the shape is already present, extended otherwise.
pub open spec fn cache_after_install(
    c: Seq<(SelectStatementV, Seq<char>)>,
    q: SelectStatementV,
    n: Seq<char>,
) -> Seq<(SelectStatementV, Seq<char>)> {
    if cache_lookup(c, q) is Some {
        c
    } else {
        c.push((q, n))
    }
}

/// The view name a caller observes after installing: the already-cached
/// name when the shape is present, the offered name otherwise.
pub open spec fn cache_canonical(
    c: Seq<(SelectStatementV, Seq<char>)>,
    q: SelectStatementV,
    n: Seq<char>,
) -> Seq<char> {
    match cache_lookup(c, q) {
        Some(x) => x,
        None => n,
    }
}

/// A found cache position lies within the entries and holds the shape.
proof fn lemma_cache_find_in_bounds(
    c: Seq<(SelectStatementV, Seq<char>)>,
    q: SelectStatementV,
    i0: int,
)
    requires
        i0 >= 0,
    ensures
        match cache_find_from(c, q, i0) {
            Some(i) => i0 <= i < c.len() && c[i].0 == q,
            None => forall|j: int| i0 <= j < c.len() ==> (#[trigger] c[j]).0 != q,
        },
    decreases c.len() - i0,
{
    if i0 < 0 || i0 >= c.len() {
    } else if c[i0].0 == q {
    } else {
        lemma_cache_find_in_bounds(c, q, i0 + 1);
        assert(c[i0].0 != q);
    }
}

/// Appending an entry for a shape that is absent makes it the one found.
proof fn lemma_cache_find_push(
    c: Seq<(SelectStatementV, Seq<char>)>,
    q: SelectStatementV,
    n: Seq<char>,
    i0: int,
)
    requires
        0 <= i0 <= c.len(),
        cache_find_from(c, q, i0) is None,
    ensures
        cache_find_from(c.push((q, n)), q, i0) == Some(c.len() as int),
    decreases c.len() - i0,
{
    if i0 < c.len() {
        lemma_cache_find_push(c, q, n, i0 + 1);
    }
}

/// The shared registry of canonical `SELECT` shapes: each structurally
/// distinct shape maps to at most one backend view name.
#[derive(Debug)]
pub struct QueryCache {
    entries: Vec<(SelectStatement, String)>,
}

impl QueryCache {
    /// The model of the cache.
    pub closed spec fn view_entries(&self) -> Seq<(SelectStatementV, Seq<char>)> {
        cache_view(self.entries@)
    }

    /// No statement shape is registered twice.
    pub open spec fn wf(&self) -> bool {
        forall|i: int, j: int|
            0 <= i < j < self.view_entries().len() ==> (#[trigger] self.view_entries()[i]).0 != (
            #[trigger] self.view_entries()[j]).0
    }

    /// An empty cache.
    pub fn new() -> (c: QueryCache)
        ensures
            c.wf(),
            c.view_entries() == Seq::<(SelectStatementV, Seq<char>)>::empty(),
    {
        let c = QueryCache { entries: Vec::new() };
        proof {
            assert(c.view_entries() =~= Seq::<(SelectStatementV, Seq<char>)>::empty());
        }
        c
    }

    /// Finds the registered view name for a statement shape.
    pub fn lookup(&self, q: &SelectStatement) -> (r: Option<&String>)
        ensures
            match r {
                Some(name) => cache_lookup(self.view_entries(), q@) == Some(name@),
                None => cache_lookup(self.view_entries(), q@) is None,
            },
    {
        let ghost cv = self.view_entries();
        let mut i: usize = 0;
        while i < self.entries.len()
            invariant
                i <= self.entries@.len(),
                cv == self.view_entries(),
                cv == cache_view(self.entries@),
                cache_find_from(cv, q@, 0) == cache_find_from(cv, q@, i as int),
            decreases self.entries@.len() - i,
        {
            if select_eq(&self.entries[i].0, q) {
                proof {
                    assert(cv[i as int].0 == q@);
                }
                return Some(&self.entries[i].1);
            }
            proof {
                assert(cv[i as int].0 != q@);
            }
            i = i + 1;
        }
        None
    }

    /// Installs a registration for a statement shape: when the shape is
    /// already cached nothing changes and the cached name is returned;
    /// otherwise the offered name is recorded and returned. The returned
    /// flag says whether the offered registration was kept.
    pub fn install(&mut self, q: SelectStatement, name: String) -> (r: (bool, String))
        requires
            old(self).wf(),
        ensures
            final(self).wf(),
            final(self).view_entries() == cache_after_install(
                old(self).view_entries(),
                q@,
                name@,
            ),
            r.0 == (cache_lookup(old(self).view_entries(), q@) is None),
            r.1@ == cache_canonical(old(self).view_entries(), q@, name@),
    {
        let ghost cv = self.view_entries();
        let existing: Option<String> = match self.lookup(&q) {
            Some(n) => Some(n.clone()),
            None => None,
        };
        match existing {
            Some(n) => (false, n),
            None => {
                let ghost qv = q@;
                let ghost nv = name@;
                let out = name.clone();
                self.entries.push((q, name));
                proof {
                    assert(self.view_entries() =~= cv.push((qv, nv)));
                    lemma_cache_find_in_bounds(cv, qv, 0);
                    assert forall|i: int, j: int|
                        0 <= i < j < self.view_entries().len() implies (
                    #[trigger] self.view_entries()[i]).0 != (#[trigger] self.view_entries()[j]).0
                        by {
                        if j < cv.len() {
                            assert(cv[i].0 != cv[j].0);
                        } else {
                            assert(cv[i].0 != qv);
                        }
                    }
                }
                (true, out)
            },
        }
    }
}

/// Two callers canonicalizing the same `SELECT` shape one after the other
/// observe the same view identifier, and only the first installation
/// changes the cache: the registration happens at most once per shape.
pub proof fn lemma_canonicalize_at_most_once(
    c: Seq<(SelectStatementV, Seq<char>)>,
    q: SelectStatementV,
    n1: Seq<char>,
    n2: Seq<char>,
)
    ensures
        cache_after_install(cache_after_install(c, q, n1), q, n2) == cache_after_install(c, q, n1),
        cache_canonical(cache_after_install(c, q, n1), q, n2) == cache_canonical(c, q, n1),
{
    match cache_find_from(c, q, 0) {
        Some(i) => {},
        None => {
            lemma_cache_find_push(c, q, n1, 0);
            let c1 = c.push((q, n1));
            assert(cache_lookup(c1, q) == Some(n1));
        },
    }
}

/// The per-table auto-increment counters shared by every connection.
#[derive(Debug)]
pub struct AutoIncrements {
    counters: Vec<(String, u64)>,
}

/// The model of the counter table.
pub open spec fn counters_view(s: Seq<(String, u64)>) -> Seq<(Seq<char>, u64)> {
    Seq::new(s.len(), |i: int| (s[i].0@, s[i].1))
}

/// The first counter entry at or after `i` for the table name.
pub open spec fn counter_find_from(c: Seq<(Seq<char>, u64)>, name: Seq<char>, i: int) -> Option<int>
    decreases c.len() - i,
{
    if i < 0 || i >= c.len() {
        None
    } else if c[i].0 == name {
        Some(i)
    } else {
        counter_find_from(c, name, i + 1)
    }
}

/// The table's next auto-increment value: zero before the first insert.
pub open spec fn counter_of(c: Seq<(Seq<char>, u64)>, name: Seq<char>) -> u64 {
    match counter_find_from(c, name, 0) {
        Some(i) => c[i].1,
        None => 0,
    }
}

/// A found counter position lies within the table and holds the name.
proof fn lemma_counter_find_in_bounds(c: Seq<(Seq<char>, u64)>, name: Seq<char>, i0: int)
    ensures
        match counter_find_from(c, name, i0) {
            Some(i) => i0 <= i < c.len() && c[i].0 == name,
            None => true,
        },
    decreases c.len() - i0,
{
    if i0 < 0 || i0 >= c.len() {
    } else if c[i0].0 == name {
    } else {
        lemma_counter_find_in_bounds(c, name, i0 + 1);
    }
}

/// Two counter tables with the same names at every position are searched
/// alike.
proof fn lemma_counter_find_same_names(
    a: Seq<(Seq<char>, u64)>,
    b: Seq<(Seq<char>, u64)>,
    name: Seq<char>,
    i0: int,
)
    requires
        a.len() == b.len(),
        forall|k: int| 0 <= k < a.len() ==> (#[trigger] a[k]).0 == b[k].0,
    ensures
        counter_find_from(a, name, i0) == counter_find_from(b, name, i0),
    decreases a.len() - i0,
{
    if 0 <= i0 < a.len() {
        lemma_counter_find_same_names(a, b, name, i0 + 1);
    }
}

impl AutoIncrements {
    /// The model of the counter table.
    pub closed spec fn view_counters(&self) -> Seq<(Seq<char>, u64)> {
        counters_view(self.counters@)
    }

    /// An empty counter table.
    pub fn new() -> (c: AutoIncrements)
        ensures
            c.view_counters() == Seq::<(Seq<char>, u64)>::empty(),
    {
        let c = AutoIncrements { counters: Vec::new() };
        proof {
            assert(c.view_counters() =~= Seq::<(Seq<char>, u64)>::empty());
        }
        c
    }

    /// Atomically fetches and increments the table's counter, creating it
    /// at zero on first use; the previous value is returned. `None` means
    /// the counter is exhausted and nothing changes.
    pub fn fetch_and_increment(&mut self, table: &String) -> (r: Option<u64>)
        ensures
            match r {
                Some(v) => v == counter_of(old(self).view_counters(), table@) && counter_of(
                    final(self).view_counters(),
                    table@,
                ) == v + 1 && forall|other: Seq<char>|
                    other != table@ ==> counter_of(final(self).view_counters(), other)
                        == counter_of(old(self).view_counters(), other),
                None => counter_of(old(self).view_counters(), table@) == u64::MAX
                    && final(self).view_counters() == old(self).view_counters(),
            },
    {
        let ghost cv = self.view_counters();
        let mut i: usize = 0;
        while i < self.counters.len()
            invariant
                i <= self.counters@.len(),
                self.counters@ == old(self).counters@,
                cv == old(self).view_counters(),
                cv == counters_view(self.counters@),
                counter_find_from(cv, table@, 0) == counter_find_from(cv, table@, i as int),
            decreases self.counters@.len() - i,
        {
            if self.counters[i].0.eq(table) {
                proof {
                    assert(cv[i as int].0 == table@);
                    assert(counter_find_from(cv, table@, 0) == Some(i as int));
                }
                let v = self.counters[i].1;
                if v == u64::MAX {
                    return None;
                }
                let name = self.counters[i].0.clone();
                let ghost c0 = self.counters@;
                self.counters.remove(i);
                let ghost c1 = self.counters@;
                self.counters.insert(i, (name, v + 1));
                proof {
                    let nv = self.view_counters();
                    assert(c1 == c0.remove(i as int));
                    assert(self.counters@ == c1.insert(i as int, (name, (v + 1) as u64)));
                    assert forall|k: int| 0 <= k < nv.len() implies (#[trigger] nv[k]).0 == cv[k].0
                        && (k != i ==> nv[k] == cv[k]) by {
                        if k < i {
                            assert(self.counters@[k] == c0[k]);
                        } else if k > i {
                            assert(c1[k - 1] == c0[k]);
                            assert(self.counters@[k] == c1[k - 1]);
                        } else {
                            assert(self.counters@[k] == (name, (v + 1) as u64));
                            assert(name@ == cv[k].0);
                        }
                    }
                    lemma_counter_find_same_names(nv, cv, table@, 0);
                    assert(counter_of(nv, table@) == v + 1);
                    assert forall|other: Seq<char>| other != table@ implies counter_of(nv, other)
                        == counter_of(cv, other) by {
                        lemma_counter_find_same_names(nv, cv, other, 0);
                        lemma_counter_find_in_bounds(cv, other, 0);
                    }
                }
                return Some(v);
            }
            proof {
                assert(cv[i as int].0 != table@);
            }
            i = i + 1;
        }
        proof {
            assert(counter_find_from(cv, table@, 0) is None);
            assert(counter_of(cv, table@) == 0);
        }
        let ghost prev = self.view_counters();
        self.counters.push((table.clone(), 1));
        proof {
            let nv = self.view_counters();
            assert(nv =~= cv.push((table@, 1u64)));
            lemma_counter_find_push_u64(cv, table@, 1u64, 0);
            assert(counter_of(nv, table@) == 1);
            assert forall|other: Seq<char>| other != table@ implies counter_of(nv, other)
                == counter_of(cv, other) by {
                lemma_counter_find_push_other(cv, table@, 1u64, other, 0);
                lemma_counter_find_in_bounds(cv, other, 0);
                match counter_find_from(cv, other, 0) {
                    Some(k) => {
                        assert(nv[k] == cv[k]);
                    },
                    None => {},
                }
            }
        }
        Some(0)
    }
}

/// Appending a counter for an absent name makes it the one found.
proof fn lemma_counter_find_push_u64(c: Seq<(Seq<char>, u64)>, name: Seq<char>, v: u64, i0: int)
    requires
        0 <= i0 <= c.len(),
        counter_find_from(c, name, i0) is None,
    ensures
        counter_find_from(c.push((name, v)), name, i0) == Some(c.len() as int),
    decreases c.len() - i0,
{
    if i0 < c.len() {
        lemma_counter_find_push_u64(c, name, v, i0 + 1);
    }
}

/// Appending a counter for one name leaves every other name's search
/// unchanged.
proof fn lemma_counter_find_push_other(
    c: Seq<(Seq<char>, u64)>,
    name: Seq<char>,
    v: u64,
    other: Seq<char>,
    i0: int,
)
    requires
        0 <= i0 <= c.len(),
        other != name,
    ensures
        counter_find_from(c.push((name, v)), other, i0) == counter_find_from(c, other, i0),
    decreases c.len() - i0,
{
    if i0 < c.len() {
        lemma_counter_find_push_other(c, name, v, other, i0 + 1);
    } else {
        assert(counter_find_from(c.push((name, v)), other, i0 + 1) is None);
    }
}

} // verus!
