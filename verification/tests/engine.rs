use mysql_shim::Fatal;
use mysql_shim::ast::{
    ArithmeticBase, ArithmeticExpression, ArithmeticOperator, Column, ConditionBase,
    ConditionExpression, ConditionTree, FieldValueExpression, LiteralExpression, Operator,
};
use mysql_shim::cache::{AutoIncrements, QueryCache};
use mysql_shim::flatten::flatten_conditional;
use mysql_shim::params::get_parameter_columns;
use mysql_shim::responses::match_static;
use mysql_shim::sanitize::sanitize_query;
use mysql_shim::schema::get_primary_key;
use mysql_shim::stmt::{
    ColumnConstraint, ColumnSpecification, CreateTableStatement, DeleteStatement,
    FieldDefinitionExpression, GroupByClause, InsertStatement, LimitClause, OrderClause, OrderType,
    SelectStatement, SqlQuery, Table, TableKey, UpdateStatement,
};
use mysql_shim::update::extract_update;
use mysql_shim::values::{Literal, Modification, Operation, Real, Value};

fn conv_literal(l: &nom_sql::Literal) -> Literal {
    match l {
        nom_sql::Literal::Null => Literal::Null,
        nom_sql::Literal::Integer(i) => Literal::Integer(*i),
        nom_sql::Literal::UnsignedInteger(u) => Literal::UnsignedInteger(*u),
        nom_sql::Literal::FixedPoint(r) => Literal::FixedPoint(Real {
            integral: r.integral,
            fractional: r.fractional,
        }),
        nom_sql::Literal::String(s) => Literal::String(s.clone()),
        nom_sql::Literal::Blob(b) => Literal::Blob(b.clone()),
        nom_sql::Literal::CurrentTime => Literal::CurrentTime,
        nom_sql::Literal::CurrentDate => Literal::CurrentDate,
        nom_sql::Literal::CurrentTimestamp => Literal::CurrentTimestamp,
        nom_sql::Literal::Placeholder => Literal::Placeholder,
    }
}

fn conv_column(c: &nom_sql::Column) -> Column {
    assert!(c.function.is_none(), "function columns are outside the supported subset");
    Column {
        name: c.name.clone(),
        alias: c.alias.clone(),
        table: c.table.clone(),
    }
}

fn conv_operator(o: &nom_sql::Operator) -> Operator {
    match o {
        nom_sql::Operator::Not => Operator::Not,
        nom_sql::Operator::And => Operator::And,
        nom_sql::Operator::Or => Operator::Or,
        nom_sql::Operator::Like => Operator::Like,
        nom_sql::Operator::NotLike => Operator::NotLike,
        nom_sql::Operator::Equal => Operator::Equal,
        nom_sql::Operator::NotEqual => Operator::NotEqual,
        nom_sql::Operator::Greater => Operator::Greater,
        nom_sql::Operator::GreaterOrEqual => Operator::GreaterOrEqual,
        nom_sql::Operator::Less => Operator::Less,
        nom_sql::Operator::LessOrEqual => Operator::LessOrEqual,
        nom_sql::Operator::In => Operator::In,
        nom_sql::Operator::Is => Operator::Is,
    }
}

fn conv_arith_base(b: &nom_sql::ArithmeticBase) -> ArithmeticBase {
    match b {
        nom_sql::ArithmeticBase::Column(c) => ArithmeticBase::Column(conv_column(c)),
        nom_sql::ArithmeticBase::Scalar(l) => ArithmeticBase::Scalar(conv_literal(l)),
    }
}

fn conv_arith(a: &nom_sql::ArithmeticExpression) -> ArithmeticExpression {
    ArithmeticExpression {
        op: match a.op {
            nom_sql::ArithmeticOperator::Add => ArithmeticOperator::Add,
            nom_sql::ArithmeticOperator::Subtract => ArithmeticOperator::Subtract,
            nom_sql::ArithmeticOperator::Multiply => ArithmeticOperator::Multiply,
            nom_sql::ArithmeticOperator::Divide => ArithmeticOperator::Divide,
        },
        left: conv_arith_base(&a.left),
        right: conv_arith_base(&a.right),
        alias: a.alias.clone(),
    }
}

fn conv_cond(c: &nom_sql::ConditionExpression) -> ConditionExpression {
    match c {
        nom_sql::ConditionExpression::ComparisonOp(t) => {
            ConditionExpression::ComparisonOp(ConditionTree {
                operator: conv_operator(&t.operator),
                left: Box::new(conv_cond(&t.left)),
                right: Box::new(conv_cond(&t.right)),
            })
        }
        nom_sql::ConditionExpression::LogicalOp(t) => {
            ConditionExpression::LogicalOp(ConditionTree {
                operator: conv_operator(&t.operator),
                left: Box::new(conv_cond(&t.left)),
                right: Box::new(conv_cond(&t.right)),
            })
        }
        nom_sql::ConditionExpression::NegationOp(e) => {
            ConditionExpression::NegationOp(Box::new(conv_cond(e)))
        }
        nom_sql::ConditionExpression::Base(b) => ConditionExpression::Base(match b {
            nom_sql::ConditionBase::Field(c) => ConditionBase::Field(conv_column(c)),
            nom_sql::ConditionBase::Literal(l) => ConditionBase::Literal(conv_literal(l)),
            nom_sql::ConditionBase::LiteralList(ls) => {
                ConditionBase::LiteralList(ls.iter().map(conv_literal).collect())
            }
            nom_sql::ConditionBase::NestedSelect(_) => {
                panic!("subqueries are outside the supported subset")
            }
        }),
        nom_sql::ConditionExpression::Arithmetic(a) => {
            ConditionExpression::Arithmetic(Box::new(conv_arith(a)))
        }
        nom_sql::ConditionExpression::Bracketed(e) => {
            ConditionExpression::Bracketed(Box::new(conv_cond(e)))
        }
    }
}

fn conv_table(t: &nom_sql::Table) -> Table {
    Table {
        name: t.name.clone(),
        alias: t.alias.clone(),
    }
}

fn conv_fve(f: &nom_sql::FieldValueExpression) -> FieldValueExpression {
    match f {
        nom_sql::FieldValueExpression::Literal(le) => {
            FieldValueExpression::Literal(LiteralExpression {
                value: conv_literal(&le.value),
                alias: le.alias.clone(),
            })
        }
        nom_sql::FieldValueExpression::Arithmetic(a) => {
            FieldValueExpression::Arithmetic(conv_arith(a))
        }
    }
}

fn conv_create(c: &nom_sql::CreateTableStatement) -> CreateTableStatement {
    CreateTableStatement {
        table: conv_table(&c.table),
        fields: c
            .fields
            .iter()
            .map(|f| ColumnSpecification {
                column: conv_column(&f.column),
                constraints: f
                    .constraints
                    .iter()
                    .map(|k| match k {
                        nom_sql::ColumnConstraint::NotNull => ColumnConstraint::NotNull,
                        nom_sql::ColumnConstraint::CharacterSet(s) => {
                            ColumnConstraint::CharacterSet(s.clone())
                        }
                        nom_sql::ColumnConstraint::Collation(s) => {
                            ColumnConstraint::Collation(s.clone())
                        }
                        nom_sql::ColumnConstraint::DefaultValue(l) => {
                            ColumnConstraint::DefaultValue(conv_literal(l))
                        }
                        nom_sql::ColumnConstraint::AutoIncrement => {
                            ColumnConstraint::AutoIncrement
                        }
                        nom_sql::ColumnConstraint::PrimaryKey => ColumnConstraint::PrimaryKey,
                        nom_sql::ColumnConstraint::Unique => ColumnConstraint::Unique,
                    })
                    .collect(),
            })
            .collect(),
        keys: c.keys.as_ref().map(|ks| {
            ks.iter()
                .map(|k| match k {
                    nom_sql::TableKey::PrimaryKey(cols) => {
                        TableKey::PrimaryKey(cols.iter().map(conv_column).collect())
                    }
                    nom_sql::TableKey::UniqueKey(n, cols) => {
                        TableKey::UniqueKey(n.clone(), cols.iter().map(conv_column).collect())
                    }
                    nom_sql::TableKey::FulltextKey(n, cols) => {
                        TableKey::FulltextKey(n.clone(), cols.iter().map(conv_column).collect())
                    }
                    nom_sql::TableKey::Key(n, cols) => {
                        TableKey::Key(n.clone(), cols.iter().map(conv_column).collect())
                    }
                })
                .collect()
        }),
    }
}

fn conv_select(s: &nom_sql::SelectStatement) -> SelectStatement {
    SelectStatement {
        tables: s.tables.iter().map(conv_table).collect(),
        distinct: s.distinct,
        fields: s
            .fields
            .iter()
            .map(|f| match f {
                nom_sql::FieldDefinitionExpression::All => FieldDefinitionExpression::All,
                nom_sql::FieldDefinitionExpression::AllInTable(t) => {
                    FieldDefinitionExpression::AllInTable(t.clone())
                }
                nom_sql::FieldDefinitionExpression::Col(c) => {
                    FieldDefinitionExpression::Col(conv_column(c))
                }
                nom_sql::FieldDefinitionExpression::Value(_) => {
                    panic!("projected value expressions are outside the supported subset")
                }
            })
            .collect(),
        where_clause: s.where_clause.as_ref().map(conv_cond),
        group_by: s.group_by.as_ref().map(|g| GroupByClause {
            columns: g.columns.iter().map(conv_column).collect(),
            having: g.having.as_ref().map(conv_cond),
        }),
        order: s.order.as_ref().map(|o| OrderClause {
            columns: o
                .columns
                .iter()
                .map(|(c, t)| {
                    (
                        conv_column(c),
                        match t {
                            nom_sql::OrderType::OrderAscending => OrderType::OrderAscending,
                            nom_sql::OrderType::OrderDescending => OrderType::OrderDescending,
                        },
                    )
                })
                .collect(),
        }),
        limit: s.limit.as_ref().map(|l| LimitClause {
            limit: l.limit,
            offset: l.offset,
        }),
    }
}

fn conv_query(q: &nom_sql::SqlQuery) -> SqlQuery {
    match q {
        nom_sql::SqlQuery::CreateTable(c) => SqlQuery::CreateTable(conv_create(c)),
        nom_sql::SqlQuery::Insert(i) => SqlQuery::Insert(InsertStatement {
            table: conv_table(&i.table),
            fields: i
                .fields
                .as_ref()
                .map(|fs| fs.iter().map(conv_column).collect()),
            data: i
                .data
                .iter()
                .map(|row| row.iter().map(conv_literal).collect())
                .collect(),
            ignore: i.ignore,
        }),
        nom_sql::SqlQuery::Select(s) => SqlQuery::Select(conv_select(s)),
        nom_sql::SqlQuery::Delete(d) => SqlQuery::Delete(DeleteStatement {
            table: conv_table(&d.table),
            where_clause: d.where_clause.as_ref().map(conv_cond),
        }),
        nom_sql::SqlQuery::Update(u) => SqlQuery::Update(UpdateStatement {
            table: conv_table(&u.table),
            fields: u
                .fields
                .iter()
                .map(|(c, f)| (conv_column(c), conv_fve(f)))
                .collect(),
            where_clause: u.where_clause.as_ref().map(conv_cond),
        }),
        _ => panic!("statement kind outside the supported subset"),
    }
}

fn value_as_i64(v: &Value) -> i64 {
    match v {
        Value::Int(i) => *i,
        other => panic!("expected an integer value, got {:?}", other),
    }
}

fn compare_flatten(cond_query: &str, key: Vec<&str>, expected: Option<Vec<Vec<i64>>>) {
    let cond = match nom_sql::parse_query(cond_query).unwrap() {
        nom_sql::SqlQuery::Update(u) => conv_cond(&u.where_clause.unwrap()),
        nom_sql::SqlQuery::Delete(d) => conv_cond(&d.where_clause.unwrap()),
        _ => unreachable!(),
    };

    let pkey: Vec<Column> = key
        .into_iter()
        .map(|k| Column {
            name: String::from(k),
            table: Some(String::from("T")),
            alias: None,
        })
        .collect();

    match flatten_conditional(&cond, &pkey).expect("flattening must not be fatal here") {
        Some(actual) => {
            let mut actual: Vec<Vec<i64>> = actual
                .iter()
                .map(|t| t.iter().map(value_as_i64).collect())
                .collect();
            let mut expected = expected.unwrap();
            actual.sort();
            expected.sort();
            assert_eq!(actual, expected);
        }
        None => assert!(expected.is_none()),
    }
}

fn flatten_fatal(cond_query: &str, key: Vec<&str>) -> Fatal {
    let cond = match nom_sql::parse_query(cond_query).unwrap() {
        nom_sql::SqlQuery::Update(u) => conv_cond(&u.where_clause.unwrap()),
        nom_sql::SqlQuery::Delete(d) => conv_cond(&d.where_clause.unwrap()),
        _ => unreachable!(),
    };
    let pkey: Vec<Column> = key
        .into_iter()
        .map(|k| Column {
            name: String::from(k),
            table: Some(String::from("T")),
            alias: None,
        })
        .collect();
    flatten_conditional(&cond, &pkey).expect_err("flattening must be fatal here")
}

fn get_schema(query: &str) -> CreateTableStatement {
    match nom_sql::parse_query(query).unwrap() {
        nom_sql::SqlQuery::CreateTable(c) => conv_create(&c),
        _ => unreachable!(),
    }
}

#[test]
fn test_flatten_conditional() {
    compare_flatten("DELETE FROM T WHERE T.a = 1", vec!["a"], Some(vec![vec![1]]));
    compare_flatten(
        "DELETE FROM T WHERE T.a = 1 OR T.a = 2",
        vec!["a"],
        Some(vec![vec![1], vec![2]]),
    );
    compare_flatten(
        "UPDATE T SET T.b = 2 WHERE T.a = 1",
        vec!["a"],
        Some(vec![vec![1]]),
    );
    compare_flatten(
        "UPDATE T SET T.b = 2 WHERE T.a = 1 OR T.a = 2",
        vec!["a"],
        Some(vec![vec![1], vec![2]]),
    );

    // Valid, but bogus, ORs:
    compare_flatten(
        "DELETE FROM T WHERE T.a = 1 OR T.a = 1",
        vec!["a"],
        Some(vec![vec![1]]),
    );
    compare_flatten(
        "UPDATE T SET T.b = 2 WHERE T.a = 1 OR T.a = 1",
        vec!["a"],
        Some(vec![vec![1]]),
    );

    // Valid, but bogus, ANDs:
    compare_flatten(
        "DELETE FROM T WHERE T.a = 1 AND T.a = 1",
        vec!["a"],
        Some(vec![vec![1]]),
    );
    compare_flatten(
        "UPDATE T SET T.b = 2 WHERE T.a = 1 AND T.a = 1",
        vec!["a"],
        Some(vec![vec![1]]),
    );
    compare_flatten(
        "DELETE FROM T WHERE T.a = 1 AND 1 = 1",
        vec!["a"],
        Some(vec![vec![1]]),
    );
    compare_flatten(
        "UPDATE T SET T.b = 2 WHERE T.a = 1 AND 1 = 1",
        vec!["a"],
        Some(vec![vec![1]]),
    );

    // We can't really handle these at the moment, but in the future we might want to
    // delete/update all rows:
    compare_flatten("DELETE FROM T WHERE 1 = 1", vec!["a"], Some(vec![]));
    compare_flatten("UPDATE T SET T.b = 2 WHERE 1 = 1", vec!["a"], Some(vec![]));

    // Invalid ANDs:
    compare_flatten("DELETE FROM T WHERE T.a = 1 AND T.a = 2", vec!["a"], None);
    compare_flatten(
        "UPDATE T SET T.b = 2 WHERE T.a = 1 AND T.a = 2",
        vec!["a"],
        None,
    );
}

#[test]
fn test_get_primary_key() {
    let assert_pk = |schema: &CreateTableStatement, expected: Vec<(usize, &str)>| {
        let pk = get_primary_key(schema);
        let got: Vec<(usize, String)> = pk.iter().map(|(i, c)| (*i, c.name.clone())).collect();
        let want: Vec<(usize, String)> =
            expected.into_iter().map(|(i, n)| (i, String::from(n))).collect();
        assert_eq!(got, want);
    };

    let with_field = get_schema("CREATE TABLE A (other int, id int PRIMARY KEY)");
    assert_pk(&with_field, vec![(1, "id")]);

    let with_const = get_schema("CREATE TABLE A (other int, id int, PRIMARY KEY (id))");
    assert_pk(&with_const, vec![(1, "id")]);

    let with_both = get_schema("CREATE TABLE A (other int, id int PRIMARY KEY, PRIMARY KEY (id))");
    assert_pk(&with_both, vec![(1, "id")]);

    let with_none = get_schema("CREATE TABLE A (other int, id int)");
    assert_pk(&with_none, vec![]);
}

#[test]
fn test_flatten_conditional_non_key_delete() {
    assert_eq!(
        flatten_fatal("DELETE FROM T WHERE T.b = 1", vec!["a"]),
        Fatal::NonKeyPredicate
    );
}

#[test]
fn test_flatten_conditional_non_key_update() {
    assert_eq!(
        flatten_fatal("UPDATE T SET T.b = 2 WHERE T.b = 1", vec!["a"]),
        Fatal::NonKeyPredicate
    );
}

#[test]
fn test_flatten_conditional_partial_key_delete() {
    assert_eq!(
        flatten_fatal("DELETE FROM T WHERE T.a = 1", vec!["a", "b"]),
        Fatal::IncompleteCompoundKey
    );
}

#[test]
fn test_flatten_conditional_partial_key_update() {
    assert_eq!(
        flatten_fatal("UPDATE T SET T.b = 2 WHERE T.a = 1", vec!["a", "b"]),
        Fatal::IncompleteCompoundKey
    );
}

#[test]
fn test_parameter_column_extraction() {
    let query = "SELECT  `votes`.* FROM `votes` WHERE `votes`.`user_id` = 1 \
                 AND `votes`.`story_id` = ? AND `votes`.`comment_id` IS NULL \
                 ORDER BY `votes`.`id` ASC LIMIT 1";
    let q = conv_query(&nom_sql::parse_query(query).unwrap());

    let pc = get_parameter_columns(&q).unwrap();

    assert_eq!(pc.len(), 1);
    assert_eq!(pc[0].name, "story_id");
    assert_eq!(pc[0].table.as_deref(), Some("votes"));
}

#[test]
fn test_parameter_columns_insert() {
    let q = conv_query(&nom_sql::parse_query("INSERT INTO t (a, b, c) VALUES (?, 2, ?)").unwrap());
    let pc = get_parameter_columns(&q).unwrap();
    let names: Vec<&str> = pc.iter().map(|c| c.name.as_str()).collect();
    assert_eq!(names, vec!["a", "c"]);
}

#[test]
fn test_parameter_columns_update() {
    let q = conv_query(
        &nom_sql::parse_query("UPDATE t SET t.a = ?, t.b = 3 WHERE t.id = ?").unwrap(),
    );
    let pc = get_parameter_columns(&q).unwrap();
    let names: Vec<&str> = pc.iter().map(|c| c.name.as_str()).collect();
    assert_eq!(names, vec!["a", "id"]);
}

#[test]
fn test_parameter_columns_unsupported_kind() {
    let q = conv_query(&nom_sql::parse_query("CREATE TABLE t (id int)").unwrap());
    assert_eq!(
        get_parameter_columns(&q).unwrap_err(),
        Fatal::UnsupportedStatementShape
    );
}

#[test]
fn test_sanitize_query_collapses_and_trims() {
    assert_eq!(
        sanitize_query("  SELECT   * FROM \"t\"  "),
        "SELECT * FROM 't'"
    );
    assert_eq!(sanitize_query("a  b"), "a b");
    assert_eq!(sanitize_query(""), "");
    assert_eq!(sanitize_query("   "), "");
    assert_eq!(sanitize_query("\tx\n"), "x");
}

#[test]
fn test_match_static_replies() {
    let version = match_static("select version() limit 1").unwrap();
    assert_eq!(version.len(), 1);
    assert_eq!(version[0].0, "version()");
    assert_eq!(version[0].1, "10.1.26-MariaDB-0+deb9u1");

    let lock = match_static("SELECT GET_LOCK('x', 10) AS lockstatus").unwrap();
    assert_eq!(lock[0].0, "lockstatus");
    assert_eq!(lock[0].1, "1");

    let engines = match_static("SHOW ENGINES").unwrap();
    assert_eq!(engines.len(), 6);
    assert_eq!(engines[0].0, "Engine");
    assert_eq!(engines[0].1, "InnoDB");

    assert!(match_static("SELECT * FROM t").is_none());
    assert!(match_static("INSERT INTO t VALUES (1)").is_none());
}

fn select_shape(q: &str) -> SelectStatement {
    match conv_query(&nom_sql::parse_query(q).unwrap()) {
        SqlQuery::Select(s) => s,
        _ => unreachable!(),
    }
}

#[test]
fn test_query_cache_single_registration() {
    let mut cache = QueryCache::new();
    let q1 = select_shape("SELECT * FROM t WHERE t.id = ?");
    let q2 = select_shape("SELECT * FROM t WHERE t.id = ?");
    let q3 = select_shape("SELECT * FROM t WHERE t.name = ?");

    assert!(cache.lookup(&q1).is_none());
    let (installed1, name1) = cache.install(q1, String::from("q_0"));
    assert!(installed1);
    assert_eq!(name1, "q_0");

    // A second caller with the same shape keeps the first registration.
    let (installed2, name2) = cache.install(q2, String::from("q_1"));
    assert!(!installed2);
    assert_eq!(name2, "q_0");

    // A different shape registers separately.
    let (installed3, name3) = cache.install(q3, String::from("q_1"));
    assert!(installed3);
    assert_eq!(name3, "q_1");
}

#[test]
fn test_auto_increment_counters() {
    let mut counters = AutoIncrements::new();
    let t1 = String::from("articles");
    let t2 = String::from("votes");
    assert_eq!(counters.fetch_and_increment(&t1), Some(0));
    assert_eq!(counters.fetch_and_increment(&t1), Some(1));
    assert_eq!(counters.fetch_and_increment(&t2), Some(0));
    assert_eq!(counters.fetch_and_increment(&t1), Some(2));
    assert_eq!(counters.fetch_and_increment(&t2), Some(1));
}

fn update_statement(q: &str) -> UpdateStatement {
    match conv_query(&nom_sql::parse_query(q).unwrap()) {
        SqlQuery::Update(u) => u,
        _ => unreachable!(),
    }
}

#[test]
fn test_extract_update_literal_and_placeholder() {
    let schema = get_schema("CREATE TABLE votes (id int PRIMARY KEY, score int, note text)");
    let q = update_statement("UPDATE votes SET votes.score = ?, votes.note = 'x' WHERE votes.id = 7");
    let (key, updates) = extract_update(&q, vec![Value::Int(42)], &schema).unwrap();

    assert_eq!(key.len(), 1);
    assert_eq!(value_as_i64(&key[0]), 7);
    assert_eq!(updates.len(), 2);
    assert_eq!(updates[0].0, 1);
    match &updates[0].1 {
        Modification::Assign(v) => assert_eq!(value_as_i64(v), 42),
        other => panic!("expected an absolute assignment, got {:?}", other),
    }
    assert_eq!(updates[1].0, 2);
    match &updates[1].1 {
        Modification::Assign(v) => match v {
            Value::Text(s) => assert_eq!(s, "x"),
            other => panic!("expected text, got {:?}", other),
        },
        other => panic!("expected an absolute assignment, got {:?}", other),
    }
}

#[test]
fn test_extract_update_arithmetic() {
    let schema = get_schema("CREATE TABLE votes (id int PRIMARY KEY, score int)");
    let q = update_statement("UPDATE votes SET votes.score = votes.score + 1 WHERE votes.id = ?");
    let (key, updates) = extract_update(&q, vec![Value::Int(3)], &schema).unwrap();

    assert_eq!(value_as_i64(&key[0]), 3);
    assert_eq!(updates.len(), 1);
    assert_eq!(updates[0].0, 1);
    match &updates[0].1 {
        Modification::Apply(Operation::Add, v) => assert_eq!(value_as_i64(v), 1),
        other => panic!("expected a relative adjustment, got {:?}", other),
    }
}

#[test]
fn test_extract_update_deterministic() {
    let schema = get_schema("CREATE TABLE votes (id int PRIMARY KEY, score int)");
    let q1 = update_statement("UPDATE votes SET votes.score = ? WHERE votes.id = ?");
    let q2 = update_statement("UPDATE votes SET votes.score = ? WHERE votes.id = ?");
    let params1 = vec![Value::Int(9), Value::Int(5)];
    let params2 = vec![Value::Int(9), Value::Int(5)];
    let (k1, u1) = extract_update(&q1, params1, &schema).unwrap();
    let (k2, u2) = extract_update(&q2, params2, &schema).unwrap();

    assert_eq!(k1.len(), k2.len());
    assert_eq!(value_as_i64(&k1[0]), value_as_i64(&k2[0]));
    assert_eq!(u1.len(), u2.len());
    assert_eq!(u1[0].0, u2[0].0);
    match (&u1[0].1, &u2[0].1) {
        (Modification::Assign(a), Modification::Assign(b)) => {
            assert_eq!(value_as_i64(a), value_as_i64(b))
        }
        _ => panic!("expected matching absolute assignments"),
    }
}

#[test]
fn test_extract_update_parameter_underflow() {
    let schema = get_schema("CREATE TABLE votes (id int PRIMARY KEY, score int)");
    let q = update_statement("UPDATE votes SET votes.score = ? WHERE votes.id = 1");
    assert_eq!(
        extract_update(&q, vec![], &schema).unwrap_err(),
        Fatal::ParameterUnderflow
    );
}

#[test]
fn test_extract_update_without_where() {
    let schema = get_schema("CREATE TABLE votes (id int PRIMARY KEY, score int)");
    let q = UpdateStatement {
        table: Table { name: String::from("votes"), alias: None },
        fields: vec![(
            Column { name: String::from("score"), alias: None, table: None },
            FieldValueExpression::Literal(LiteralExpression {
                value: Literal::Integer(1),
                alias: None,
            }),
        )],
        where_clause: None,
    };
    assert_eq!(
        extract_update(&q, vec![], &schema).unwrap_err(),
        Fatal::UnsupportedStatementShape
    );
}

#[test]
fn test_extract_update_duplicate_where_binding() {
    let schema = get_schema("CREATE TABLE votes (id int PRIMARY KEY, score int)");
    let q = update_statement("UPDATE votes SET votes.score = 1 WHERE votes.id = 1 AND votes.id = 2");
    assert_eq!(
        extract_update(&q, vec![], &schema).unwrap_err(),
        Fatal::AmbiguousCondition
    );
}

#[test]
fn test_extract_update_missing_key_binding() {
    let schema = get_schema("CREATE TABLE votes (id int PRIMARY KEY, score int)");
    let q = update_statement("UPDATE votes SET votes.id = 3 WHERE votes.score = 1");
    assert_eq!(
        extract_update(&q, vec![], &schema).unwrap_err(),
        Fatal::IncompleteCompoundKey
    );
}

#[test]
fn test_parameter_columns_in_list() {
    let q = conv_query(
        &nom_sql::parse_query("SELECT * FROM t WHERE t.id IN (?, ?, ?)").unwrap(),
    );
    let pc = get_parameter_columns(&q).unwrap();
    let names: Vec<&str> = pc.iter().map(|c| c.name.as_str()).collect();
    assert_eq!(names, vec!["id", "id", "id"]);
}

#[test]
fn test_parameter_columns_mixed_in_list_rejected() {
    let q = conv_query(
        &nom_sql::parse_query("SELECT * FROM t WHERE t.id IN (?, 2)").unwrap(),
    );
    assert_eq!(
        get_parameter_columns(&q).unwrap_err(),
        Fatal::UnsupportedStatementShape
    );
}

#[test]
fn test_flatten_conditional_compound_key_simple() {
    compare_flatten(
        "DELETE FROM T WHERE T.a = 1 AND T.b = 2",
        vec!["a", "b"],
        Some(vec![vec![1, 2]]),
    );
    compare_flatten(
        "UPDATE T SET T.c = 3 WHERE T.a = 1 AND T.b = 2",
        vec!["a", "b"],
        Some(vec![vec![1, 2]]),
    );
}

#[test]
fn test_flatten_conditional_bracketed_unsupported() {
    // A parenthesized subtree is outside the flattener's supported subset
    // and the condition is reported as irreducible.
    compare_flatten(
        "DELETE FROM T WHERE (T.a = 1 AND T.b = 2) OR (T.a = 10 OR T.b = 20)",
        vec!["a", "b"],
        None,
    );
}

#[test]
fn test_flatten_conditional_key_order() {
    // Values come out in primary-key column order, not in the order the
    // WHERE clause supplied them.
    compare_flatten(
        "DELETE FROM T WHERE T.b = 2 AND T.a = 1",
        vec!["a", "b"],
        Some(vec![vec![1, 2]]),
    );
    compare_flatten(
        "UPDATE T SET T.c = 3 WHERE T.b = 2 AND T.a = 1",
        vec!["a", "b"],
        Some(vec![vec![1, 2]]),
    );
}

#[test]
fn test_flatten_conditional_or_surfaces_fatal() {
    // An OR walks both sides even when the left cannot be reduced, so a
    // non-key predicate on the right is still fatal.
    assert_eq!(
        flatten_fatal("DELETE FROM T WHERE 1 = 2 OR T.b = 1", vec!["a"]),
        Fatal::NonKeyPredicate
    );
}

#[test]
fn test_sanitize_query_strips_comments() {
    assert_eq!(sanitize_query("SELECT /* hidden */ 1"), "SELECT 1");
    assert_eq!(sanitize_query("SELECT 1 -- trailing words"), "SELECT 1");
    assert_eq!(sanitize_query("SELECT 1 --c\nFROM t"), "SELECT 1 \nFROM t");
    assert_eq!(sanitize_query("SELECT /* unterminated"), "SELECT");
    assert_eq!(sanitize_query("a /* x */ /* y */ b"), "a b");
}

#[test]
fn test_sanitize_query_trims_unicode_whitespace() {
    assert_eq!(sanitize_query("\u{00A0}x\u{3000}"), "x");
}
