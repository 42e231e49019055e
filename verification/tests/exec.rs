use wafer_core::database::codec::JsonColumns;
use wafer_core::database::exec::batch::{
    plan_op, read_batch, BatchRun, BatchStep, OpPlan, Planned,
};
use wafer_core::database::exec::ddl::{DdlAction, DdlStep, EnsureTable};
use wafer_core::database::exec::guarded::{first_refusing_guard, insert_outcome, update_outcome};
use wafer_core::database::exec::ops::{
    plan, settle, Outcome, Plan, Reading, Reply, Request, Settled, Work,
};
use wafer_core::database::exec::prepare::{
    Answer, Need, Policy, PrepStep, Preparation, Prepared, Question,
};
use wafer_core::database::exec::rows::{
    mint_record_id, prepare_created_row, sorted_pairs, stamp_timestamps,
};
use wafer_core::database::exec::sequential::{SequentialBatch, SequentialStep};
use wafer_core::database::exec::statement::{
    BatchOp, BatchResult, BatchStatement, Failure, Statement, TxOp, TxResult, TxStatement,
};
use wafer_core::database::filter::{Filter, FilterOp, SortField};
use wafer_core::database::schema::{Column, DataType, Table};
use wafer_core::database::schema_cache::SchemaCache;
use wafer_core::database::service::{
    AggregateColumnSpec, AggregateSpec, CapGuard, DatabaseError, GuardedInsert, GuardedUpdate,
    ListOptions, Record, UpsertConflict, UpsertSpec, WriteOp, WriteOutcome,
};
use wafer_core::double::Double;
use wafer_core::json::{parse, Json};
use wafer_core::row::Row;

fn record(id: &str) -> Record {
    Record { id: id.into(), data: Row::new() }
}

fn named(name: &str) -> Record {
    let mut data = Row::new();
    data.insert("name".into(), Json::Str(name.into()));
    Record { id: String::new(), data }
}

fn row(entries: &[(&str, &str)]) -> Row {
    let mut row = Row::new();
    for (k, v) in entries {
        row.insert(k.to_string(), Json::Str(v.to_string()));
    }
    row
}

fn options() -> ListOptions {
    ListOptions {
        filters: vec![],
        filter_tree: None,
        sort: vec![],
        limit: None,
        offset: 0,
        skip_count: false,
        columns: None,
    }
}

/// A database that answers questions about its schema.
struct Schema {
    strict: bool,
    cache: Option<SchemaCache>,
    exists: bool,
    columns: Vec<&'static str>,
    key: Vec<&'static str>,
    generates: bool,
    /// Whether adding a column succeeds, and whether it is there afterwards.
    adds: (bool, bool),
    asked: Vec<String>,
}

impl Schema {
    fn new(strict: bool, cached: bool) -> Self {
        Schema {
            strict,
            cache: if cached { Some(SchemaCache::new()) } else { None },
            exists: true,
            columns: vec!["id", "name", "created_at", "updated_at"],
            key: vec!["id"],
            generates: false,
            adds: (true, true),
            asked: vec![],
        }
    }

    fn answer(&mut self, question: Question) -> Answer {
        match question {
            Question::TableExists { table } => {
                self.asked.push(format!("exists {table}"));
                Answer::Exists(Ok(self.exists))
            }
            Question::ListColumns { table } => {
                self.asked.push(format!("columns {table}"));
                let rows = self.columns.iter().map(|c| named(c)).collect();
                Answer::Columns(Ok((rows, JsonColumns::none())))
            }
            Question::ListPrimaryKey { table } => {
                self.asked.push(format!("key {table}"));
                Answer::Key(Ok(self.key.iter().map(|c| named(c)).collect()))
            }
            Question::GeneratesId { table } => {
                self.asked.push(format!("generates {table}"));
                Answer::Generates(self.generates)
            }
            Question::AddColumn { table, column, .. } => {
                self.asked.push(format!("add {table}.{column}"));
                let (ok, there) = self.adds;
                if there {
                    self.columns.push(Box::leak(column.into_boxed_str()));
                }
                Answer::Added(if ok {
                    Ok(0)
                } else {
                    Err(Failure::Failed(DatabaseError::Internal("alter refused".into())))
                })
            }
        }
    }

    fn prepare(&mut self, need: Need) -> Result<Prepared, DatabaseError> {
        let mut step = Preparation::start(need, self.strict, &mut self.cache);
        loop {
            step = match step {
                PrepStep::Ask(question, preparation) => {
                    let answer = self.answer(question);
                    preparation.resume(answer, self.strict, &mut self.cache)
                }
                PrepStep::Ready(prepared) => return Ok(prepared),
                PrepStep::Fail(e) => return Err(e),
            };
        }
    }

    /// What an operation runs, or what came of it without running anything.
    fn work(&mut self, request: Request) -> Result<Result<(Work, Reading), Outcome<Double>>, DatabaseError> {
        match plan(request) {
            Plan::Prepare(need, pending) => {
                let prepared = self.prepare(need)?;
                match settle(pending, prepared, 0) {
                    Settled::Run(work, reading) => Ok(Ok((work, reading))),
                    Settled::Done(outcome) => Ok(Err(outcome)),
                    Settled::Fail(e) => Err(e),
                }
            }
            Plan::Run(work, reading) => Ok(Ok((work, reading))),
            Plan::NoRows => Ok(Err(Outcome::Count(0))),
            Plan::Fail(e) => Err(e),
        }
    }

    fn runs(&mut self, request: Request) -> (Work, Reading) {
        match self.work(request) {
            Ok(Ok(run)) => run,
            other => panic!("something is run: {other:?}"),
        }
    }

    fn read(&mut self, reading: Reading, reply: Reply<Double>) -> Outcome<Double> {
        reading.read(Ok(reply), &mut self.cache).expect("the reply fits")
    }
}

#[test]
fn minted_record_ids_are_v7_and_increase_in_mint_order() {
    let ids: Vec<String> = (0..2000).map(|_| mint_record_id()).collect();
    for id in &ids {
        let parsed = uuid::Uuid::parse_str(id).expect("minted id is a UUID");
        assert_eq!(parsed.get_version_num(), 7, "{id} is not a v7 UUID");
    }
    for pair in ids.windows(2) {
        assert!(
            pair[0] < pair[1],
            "{} then {} is out of order",
            pair[0],
            pair[1]
        );
    }
}

fn guarded_need(table: &str) -> Need {
    Need {
        table: table.into(),
        guard: true,
        require: vec![],
        rows: vec![],
        policy: Policy::Keep,
        ask_generates: false,
        order: false,
    }
}

#[test]
fn probe_write_back_dropped_when_invalidated_mid_flight() {
    for exists in [false, true] {
        let mut cache = Some(SchemaCache::new());
        let PrepStep::Ask(Question::TableExists { .. }, preparation) =
            Preparation::start(guarded_need("orders"), false, &mut cache)
        else {
            panic!("a cold cache asks")
        };
        cache.as_mut().unwrap().invalidate("orders");
        match preparation.resume(Answer::Exists(Ok(exists)), false, &mut cache) {
            PrepStep::Ready(prepared) => {
                assert_eq!(prepared.present, exists, "probe returns its read-time value");
            }
            other => panic!("{other:?}"),
        }
        assert!(
            !cache.unwrap().table_known_present("orders"),
            "a probe write-back racing an invalidation must be discarded"
        );
    }
}

/// Runs each operation by its kind, as single statements would be run.
fn run_each(
    ops: &[BatchOp<'_>],
    calls: &mut Vec<String>,
) -> Result<Vec<BatchResult<f64>>, DatabaseError> {
    let mut step = SequentialBatch::<f64>::start(ops.len());
    loop {
        step = match step {
            SequentialStep::Run(i, batch) => {
                let (sql, _) = ops[i].sql_params();
                let outcome = match ops[i] {
                    BatchOp::Rows { .. } => {
                        calls.push(format!("fetch:{sql}"));
                        Ok(BatchResult::Rows(vec![record(sql)]))
                    }
                    BatchOp::FetchOne { .. } => {
                        calls.push(format!("fetch_one:{sql}"));
                        Ok(BatchResult::FetchOne(record(sql)))
                    }
                    BatchOp::Execute { .. } => {
                        calls.push(format!("execute:{sql}"));
                        if sql == "FAIL" {
                            Err(DatabaseError::Internal("boom".into()))
                        } else {
                            Ok(BatchResult::Execute(7))
                        }
                    }
                    BatchOp::ScalarI64 { .. } => {
                        calls.push(format!("scalar_i64:{sql}"));
                        Ok(BatchResult::ScalarI64(42))
                    }
                    BatchOp::ScalarF64 { .. } => {
                        calls.push(format!("scalar_f64:{sql}"));
                        Ok(BatchResult::ScalarF64(2.5))
                    }
                };
                batch.resume(outcome)
            }
            SequentialStep::Done(results) => return Ok(results),
            SequentialStep::Fail(e) => return Err(e),
        };
    }
}

#[test]
fn run_batch_default_decodes_each_variant_positionally_and_in_order() {
    let mut calls = vec![];
    let results = run_each(
        &[
            BatchOp::ScalarI64 { sql: "COUNT", params: &[] },
            BatchOp::Rows { sql: "SELECT", params: &[] },
            BatchOp::Execute { sql: "UPDATE", params: &[] },
            BatchOp::ScalarF64 { sql: "SUM", params: &[] },
            BatchOp::FetchOne { sql: "ONE", params: &[] },
        ],
        &mut calls,
    )
    .expect("sequential batch succeeds");
    assert_eq!(results.len(), 5);
    assert!(matches!(results[0], BatchResult::ScalarI64(42)));
    match &results[1] {
        BatchResult::Rows(rows) => assert_eq!(rows[0].id, "SELECT"),
        other => panic!("expected Rows, got {other:?}"),
    }
    assert!(matches!(results[2], BatchResult::Execute(7)));
    match results[3] {
        BatchResult::ScalarF64(f) => assert!((f - 2.5).abs() < f64::EPSILON),
        ref other => panic!("expected ScalarF64, got {other:?}"),
    }
    match &results[4] {
        BatchResult::FetchOne(r) => assert_eq!(r.id, "ONE"),
        other => panic!("expected FetchOne, got {other:?}"),
    }
    assert_eq!(
        calls,
        vec![
            "scalar_i64:COUNT",
            "fetch:SELECT",
            "execute:UPDATE",
            "scalar_f64:SUM",
            "fetch_one:ONE",
        ]
    );
}

#[test]
fn run_batch_default_aborts_on_first_error_and_skips_later_ops() {
    let mut calls = vec![];
    let err = run_each(
        &[
            BatchOp::Rows { sql: "A", params: &[] },
            BatchOp::Execute { sql: "FAIL", params: &[] },
            BatchOp::Rows { sql: "C", params: &[] },
        ],
        &mut calls,
    )
    .expect_err("the failing op aborts the batch");
    assert!(matches!(err, DatabaseError::Internal(_)));
    assert_eq!(
        calls,
        vec!["fetch:A", "execute:FAIL"],
        "the op after the failing one must not run"
    );
}

#[test]
fn take_where_dispatches_through_the_write_path() {
    let mut schema = Schema::new(false, false);
    let (work, reading) =
        schema.runs(Request::TakeWhere { collection: "t".into(), filters: vec![] });
    assert!(matches!(
        work,
        Work::ExecuteReturning(Statement::DeleteWhereReturning { table, .. }) if table == "t"
    ));
    match schema.read(reading, Reply::Rows(vec![record("a")])) {
        Outcome::Records(rows) => assert_eq!(rows[0].id, "a"),
        other => panic!("{other:?}"),
    }
}

#[test]
fn batch_op_sql_params_returns_the_pair_for_every_variant() {
    let params = vec![Json::Str("x".into())];
    for op in [
        BatchOp::Rows { sql: "s", params: &params },
        BatchOp::FetchOne { sql: "s", params: &params },
        BatchOp::Execute { sql: "s", params: &params },
        BatchOp::ScalarI64 { sql: "s", params: &params },
        BatchOp::ScalarF64 { sql: "s", params: &params },
    ] {
        let (sql, p) = op.sql_params();
        assert_eq!(sql, "s");
        assert_eq!(p, params.as_slice());
    }
    for op in [
        TxOp::Execute { sql: "s", params: &params },
        TxOp::Returning { sql: "s", params: &params },
    ] {
        assert_eq!(op.sql_params(), ("s", params.as_slice()));
    }
}

fn list(opts: ListOptions) -> Request {
    Request::List { collection: "widgets".into(), opts }
}

#[test]
fn list_issues_count_and_select_as_one_run_batch() {
    let mut schema = Schema::new(true, false);
    let (work, reading) = schema.runs(list(options()));
    match &work {
        Work::Batch(ops) => {
            assert_eq!(ops.len(), 2, "count + select");
            assert!(
                matches!(&ops[0], BatchStatement::ScalarI64(Statement::Count { .. })),
                "first op is the count scalar"
            );
            assert!(
                matches!(&ops[1], BatchStatement::Rows(Statement::Select { .. })),
                "second op is the row-returning select"
            );
        }
        other => panic!("list must issue a single batch: {other:?}"),
    }
    let reply = Reply::Batch(vec![
        BatchResult::ScalarI64(9),
        BatchResult::Rows(vec![record("r1"), record("r2")]),
    ]);
    match schema.read(reading, reply) {
        Outcome::List(list) => {
            assert_eq!(list.total_count, 9);
            assert_eq!(list.records.len(), 2);
            assert_eq!((list.page, list.page_size), (1, 9));
        }
        other => panic!("{other:?}"),
    }
}

#[test]
fn list_skip_count_uses_single_fetch_not_a_batch() {
    let mut schema = Schema::new(true, false);
    let (work, reading) = schema.runs(list(ListOptions { skip_count: true, ..options() }));
    assert!(
        matches!(work, Work::Fetch(Statement::Select { .. })),
        "skip_count must not batch (there is no count statement)"
    );
    match schema.read(reading, Reply::Rows(vec![record("r1"), record("r2")])) {
        Outcome::List(list) => {
            assert_eq!(list.records.len(), 2);
            assert_eq!(list.total_count, 2);
        }
        other => panic!("{other:?}"),
    }
}

fn newest_first(limit: Option<i64>, offset: i64) -> ListOptions {
    ListOptions {
        sort: vec![SortField { field: "created_at".into(), desc: true }],
        limit,
        offset,
        skip_count: true,
        ..options()
    }
}

/// The key by which the select of a list breaks ties.
fn tie_break(schema: &mut Schema, table: &str, opts: ListOptions) -> Vec<String> {
    match schema.runs(Request::List { collection: table.into(), opts }).0 {
        Work::Fetch(Statement::Select { selection, .. }) => selection.unique_key,
        other => panic!("a select: {other:?}"),
    }
}

#[test]
fn sorted_list_breaks_ties_on_the_introspected_primary_key_once_per_table() {
    let mut schema = Schema::new(true, true);
    schema.key = vec!["token_hash"];
    for offset in [0, 2] {
        assert_eq!(
            tie_break(&mut schema, "sessions", newest_first(Some(2), offset)),
            ["token_hash"]
        );
    }
    assert_eq!(schema.asked, ["key sessions"], "one key probe, then two selects");
}

#[test]
fn unordered_list_skips_the_key_probe_and_a_keyless_table_sorts_alone() {
    let mut schema = Schema::new(true, true);
    let all = ListOptions { skip_count: true, ..options() };
    assert!(tie_break(&mut schema, "t", all).is_empty());
    assert!(schema.asked.is_empty());

    let mut keyless = Schema::new(true, true);
    keyless.key = vec![];
    assert!(tie_break(&mut keyless, "t", newest_first(None, 0)).is_empty());
}

#[test]
fn an_empty_key_is_cached_only_for_a_table_that_exists() {
    let mut schema = Schema::new(true, true);
    schema.key = vec![];
    schema.exists = false;
    tie_break(&mut schema, "later", newest_first(Some(2), 0));
    assert_eq!(schema.cache.as_ref().unwrap().primary_key("later"), None, "not cached");

    schema.exists = true;
    schema.key = vec!["id"];
    assert_eq!(
        tie_break(&mut schema, "later", newest_first(Some(2), 0)),
        ["id"],
        "the new key breaks ties"
    );

    let mut keyless = Schema::new(true, true);
    keyless.key = vec![];
    for _ in 0..2 {
        tie_break(&mut keyless, "keyless", newest_first(Some(2), 0));
    }
    assert_eq!(keyless.cache.as_ref().unwrap().primary_key("keyless"), Some(Vec::new()));
    let probes = |word: &str| keyless.asked.iter().filter(|q| q.starts_with(word)).count();
    assert_eq!(probes("exists"), 1, "probed once");
    assert_eq!(probes("key"), 1, "the empty key is served from the cache");
}

fn column(name: &str, primary_key: bool) -> Column {
    Column {
        name: name.into(),
        data_type: DataType::Text,
        nullable: !primary_key,
        primary_key,
        auto_increment: false,
        unique: false,
        default: None,
    }
}

fn ddl_table() -> Table {
    Table {
        name: "widgets".into(),
        columns: vec![column("id", true), column("payload", false)],
        indexes: vec![],
        primary_key: vec![],
        unique_keys: vec![],
    }
}

/// Brings the table up; gives what was done, and how it ended.
fn ensure(schema: &mut Schema) -> (Vec<DdlAction>, Result<(), DatabaseError>) {
    let mut done = vec![];
    let mut step = EnsureTable::start(ddl_table(), &mut schema.cache);
    loop {
        step = match step {
            DdlStep::Act(action, run) => {
                let answer = match &action {
                    DdlAction::ListColumns => {
                        schema.answer(Question::ListColumns { table: "widgets".into() })
                    }
                    DdlAction::AddColumn { column } => schema.answer(Question::AddColumn {
                        table: "widgets".into(),
                        column: run.table.columns[*column].name.clone(),
                        value: Json::Null,
                    }),
                    _ => Answer::Added(Ok(0)),
                };
                done.push(action);
                run.resume(answer, &mut schema.cache)
            }
            DdlStep::Done => return (done, Ok(())),
            DdlStep::Fail(e) => return (done, Err(e)),
        };
    }
}

fn ddl_schema(adds: (bool, bool)) -> Schema {
    Schema { columns: vec!["id"], adds, ..Schema::new(false, true) }
}

#[test]
fn ensure_schema_table_creates_then_adds_only_the_missing_columns() {
    let mut schema = ddl_schema((true, true));
    let (done, end) = ensure(&mut schema);
    end.expect("ensure_schema_table succeeds");
    assert!(
        matches!(done[0], DdlAction::CreateTable),
        "the create comes first: {done:?}"
    );
    let alters: Vec<&String> = schema.asked.iter().filter(|q| q.starts_with("add")).collect();
    assert_eq!(
        alters,
        ["add widgets.payload"],
        "only the missing column is added"
    );
}

#[test]
fn ensure_schema_table_propagates_a_real_add_column_failure() {
    let (_, end) = ensure(&mut ddl_schema((false, false)));
    let err = end.expect_err("a failed ADD COLUMN must not be swallowed");
    assert!(
        err.to_string().contains("payload"),
        "the error names the column: {err:?}"
    );
}

#[test]
fn ensure_schema_table_tolerates_a_lost_add_column_race() {
    let (_, end) = ensure(&mut ddl_schema((false, true)));
    end.expect("a lost ADD COLUMN race is not an error");
}

#[test]
fn ensure_schema_table_invalidates_the_schema_cache_even_when_it_fails() {
    let mut schema = ddl_schema((false, false));
    let cache = schema.cache.as_mut().unwrap();
    let gen = cache.generation();
    cache.mark_table_present_if_gen("widgets", gen);
    let (_, end) = ensure(&mut schema);
    assert!(end.is_err());
    assert!(
        !schema.cache.unwrap().table_known_present("widgets"),
        "the stale fact must be gone"
    );
}

/// The statements of the transaction that creates the rows.
fn inserts(schema: &mut Schema, rows: Vec<Row>) -> (Vec<Statement>, Reading) {
    let (work, reading) =
        schema.runs(Request::CreateMany { collection: "widgets".into(), rows });
    match work {
        Work::Transaction(ops) => (
            ops.into_iter()
                .map(|op| match op {
                    TxStatement::Execute(statement) => statement,
                    other => panic!("{other:?}"),
                })
                .collect(),
            reading,
        ),
        other => panic!("the inserts must not go through a non-atomic batch: {other:?}"),
    }
}

fn columns(statement: &Statement) -> Vec<&str> {
    match statement {
        Statement::Insert { pairs, .. } => pairs.iter().map(|(k, _)| k.as_str()).collect(),
        other => panic!("an insert: {other:?}"),
    }
}

#[test]
fn create_many_issues_exactly_one_transaction_of_inserts() {
    let mut schema = Schema::new(true, false);
    let rows = vec![row(&[("name", "a")]), row(&[("name", "b")])];
    let (statements, reading) = inserts(&mut schema, rows);
    assert_eq!(statements.len(), 2, "one statement per row");
    for statement in &statements {
        assert!(matches!(statement, Statement::Insert { .. }), "{statement:?}");
    }
    let reply = Reply::Transaction(vec![TxResult::Execute(1), TxResult::Execute(1)]);
    assert!(matches!(schema.read(reading, reply), Outcome::Count(2)));
}

#[test]
fn create_many_stamps_an_id_and_timestamps_on_every_row() {
    let mut schema = Schema::new(true, false);
    let (statements, _) = inserts(&mut schema, vec![row(&[("name", "a")])]);
    assert_eq!(columns(&statements[0]), ["created_at", "id", "name", "updated_at"]);
}

#[test]
fn create_many_inserts_rows_with_different_column_sets() {
    let mut schema = Schema::new(true, false);
    let rows = vec![row(&[("name", "a")]), row(&[("other", "b")])];
    let (statements, _) = inserts(&mut schema, rows);
    let (first, second) = (columns(&statements[0]), columns(&statements[1]));
    assert!(first.contains(&"name") && !first.contains(&"other"), "{first:?}");
    assert!(second.contains(&"other") && !second.contains(&"name"), "{second:?}");
}

/// What a batch runs as one transaction.
fn batch(schema: &mut Schema, ops: Vec<WriteOp>) -> BatchStep {
    let mut step = BatchRun::start(ops, schema.strict, &mut schema.cache);
    loop {
        step = match step {
            BatchStep::Ask(question, run) => {
                let answer = schema.answer(question);
                run.resume(answer, schema.strict, &mut schema.cache)
            }
            other => return other,
        };
    }
}

fn name_is(name: &str) -> Vec<Filter> {
    vec![Filter {
        field: "name".into(),
        operator: FilterOp::Equal,
        value: Json::Str(name.into()),
    }]
}

#[test]
fn batch_runs_every_op_as_one_transaction_in_order() {
    let mut schema = Schema::new(true, false);
    let ops = vec![
        WriteOp::Create { collection: "widgets".into(), data: row(&[("name", "a")]) },
        WriteOp::Update {
            collection: "widgets".into(),
            id: "r1".into(),
            data: row(&[("name", "b")]),
        },
        WriteOp::Delete { collection: "widgets".into(), id: "r2".into() },
        WriteOp::UpdateWhere {
            collection: "widgets".into(),
            filters: name_is("b"),
            data: row(&[("name", "c")]),
        },
        WriteOp::Upsert {
            collection: "widgets".into(),
            spec: UpsertSpec {
                data: vec![("id".into(), Json::Str("r3".into()))],
                conflict_columns: vec!["id".into()],
                on_conflict: UpsertConflict::SetColumns(Vec::new()),
            },
        },
    ];
    let BatchStep::Run(statements, planned) = batch(&mut schema, ops) else {
        panic!("one transaction for the whole batch")
    };
    assert!(matches!(
        statements.as_slice(),
        [
            TxStatement::Returning(Statement::InsertReturning { .. }),
            TxStatement::Returning(Statement::UpdateByIdReturning { .. }),
            TxStatement::Execute(Statement::DeleteById { .. }),
            TxStatement::Execute(Statement::UpdateWhere { .. }),
            TxStatement::Execute(Statement::Upsert { .. }),
        ]
    ));
    let results = statements
        .iter()
        .map(|s| match s {
            TxStatement::Execute(_) => TxResult::Execute(1),
            TxStatement::Returning(_) => TxResult::Returning(vec![record("r1")]),
        })
        .collect();
    let outcomes = read_batch(planned, results).expect("batch succeeds");
    assert!(matches!(&outcomes[0], WriteOutcome::Created(r) if r.id == "r1"));
    assert!(matches!(&outcomes[1], WriteOutcome::Updated(Some(r)) if r.id == "r1"));
    assert!(matches!(outcomes[2], WriteOutcome::Deleted { rows_affected: 1 }));
    assert!(matches!(outcomes[3], WriteOutcome::UpdatedWhere { rows_affected: 1 }));
    assert!(matches!(outcomes[4], WriteOutcome::Upserted { rows_affected: 1 }));
}

fn cap() -> Vec<CapGuard> {
    vec![CapGuard::CountBelow { filters: Vec::new(), cap: 3 }]
}

fn insert_guarded(data: Row) -> Request {
    Request::InsertGuarded { collection: "widgets".into(), data, guards: cap() }
}

fn update_guarded(data: Row) -> Request {
    Request::UpdateGuarded {
        collection: "widgets".into(),
        filters: vec![],
        data,
        guards: cap(),
    }
}

fn verdict(holds: i64) -> TxResult {
    let mut data = Row::new();
    data.insert("g0".into(), Json::Int(holds));
    TxResult::Returning(vec![Record { id: String::new(), data }])
}

#[test]
fn guarded_writes_run_one_conditional_statement_in_one_transaction() {
    let mut schema = Schema::new(true, false);
    let (work, reading) = schema.runs(insert_guarded(row(&[("name", "a")])));
    match &work {
        Work::Transaction(ops) => assert!(
            matches!(
                ops.as_slice(),
                [
                    TxStatement::Returning(Statement::GuardProbe { .. }),
                    TxStatement::Returning(Statement::InsertGuarded { .. }),
                    TxStatement::Returning(Statement::GuardProbe { .. }),
                ]
            ),
            "probe, write, probe: {ops:?}"
        ),
        other => panic!("one transaction per guarded write: {other:?}"),
    }
    let reply = Reply::Transaction(vec![
        verdict(1),
        TxResult::Returning(vec![record("r1")]),
        verdict(1),
    ]);
    assert!(matches!(
        schema.read(reading, reply),
        Outcome::Inserted(GuardedInsert::Inserted(r)) if r.id == "r1"
    ));
    let (work, reading) = schema.runs(update_guarded(row(&[("name", "b")])));
    match &work {
        Work::Transaction(ops) => assert!(
            matches!(
                ops.as_slice(),
                [
                    TxStatement::Returning(Statement::GuardProbe { .. }),
                    TxStatement::Execute(Statement::UpdateGuarded { .. }),
                    TxStatement::Returning(Statement::GuardProbe { .. }),
                ]
            ),
            "probe, write, probe: {ops:?}"
        ),
        other => panic!("{other:?}"),
    }
    let reply = Reply::Transaction(vec![verdict(1), TxResult::Execute(1), verdict(1)]);
    assert!(matches!(
        schema.read(reading, reply),
        Outcome::Updated(GuardedUpdate::Updated { rows_affected: 1 })
    ));
}

#[test]
fn a_refusal_the_first_probe_missed_is_named_by_the_second() {
    let mut schema = Schema::new(true, false);
    let (_, reading) = schema.runs(insert_guarded(Row::new()));
    let reply =
        Reply::Transaction(vec![verdict(1), TxResult::Returning(Vec::new()), verdict(0)]);
    let inserted = schema.read(reading, reply);
    assert!(
        matches!(inserted, Outcome::Inserted(GuardedInsert::Refused { guard: 0 })),
        "{inserted:?}"
    );
    let (_, reading) = schema.runs(update_guarded(Row::new()));
    let reply = Reply::Transaction(vec![verdict(1), TxResult::Execute(0), verdict(0)]);
    let updated = schema.read(reading, reply);
    assert!(
        matches!(updated, Outcome::Updated(GuardedUpdate::Refused { guard: 0 })),
        "{updated:?}"
    );
}

#[test]
fn batch_with_no_ops_runs_nothing() {
    let mut schema = Schema::new(true, false);
    assert!(matches!(batch(&mut schema, Vec::new()), BatchStep::Done(o) if o.is_empty()));
}

#[test]
fn create_many_with_no_rows_issues_nothing() {
    let mut schema = Schema::new(true, false);
    let request = Request::CreateMany { collection: "widgets".into(), rows: Vec::new() };
    assert!(matches!(schema.work(request), Ok(Err(Outcome::Count(0)))));
}

#[test]
fn a_batch_on_a_missing_table_writes_nothing_there() {
    let mut schema = Schema::new(false, false);
    schema.exists = false;
    let ops = vec![
        WriteOp::DeleteWhere { collection: "gone".into(), filters: vec![] },
        WriteOp::UpdateWhere {
            collection: "gone".into(),
            filters: vec![],
            data: row(&[("name", "x")]),
        },
    ];
    match batch(&mut schema, ops) {
        BatchStep::Done(outcomes) => assert!(matches!(
            outcomes.as_slice(),
            [
                WriteOutcome::DeletedWhere { rows_affected: 0 },
                WriteOutcome::UpdatedWhere { rows_affected: 0 }
            ]
        )),
        other => panic!("{other:?}"),
    }
}

#[test]
fn a_table_that_numbers_its_rows_gets_no_minted_id() {
    let mut schema = Schema::new(false, false);
    schema.generates = true;
    let request =
        Request::Create { collection: "widgets".into(), data: row(&[("name", "a")]) };
    let (work, reading) = schema.runs(request);
    match &work {
        Work::Insert(statement) => {
            assert_eq!(columns(statement), ["created_at", "name", "updated_at"]);
        }
        other => panic!("{other:?}"),
    }
    match schema.read(reading, Reply::Inserted(Some(7))) {
        Outcome::Record(r) => {
            assert_eq!(r.id, "7");
            assert_eq!(r.data.get("id"), Some(&Json::Int(7)));
        }
        other => panic!("{other:?}"),
    }
}

#[test]
fn a_read_of_an_unknown_column_is_refused_and_a_write_adds_it() {
    let mut schema = Schema::new(false, false);
    let unknown = vec![Filter {
        field: "zz".into(),
        operator: FilterOp::Equal,
        value: Json::Int(1),
    }];
    let err = schema
        .work(Request::Count { collection: "widgets".into(), filters: unknown })
        .unwrap_err();
    assert!(matches!(err, DatabaseError::InvalidArgument(_)), "{err:?}");
    assert!(!schema.asked.iter().any(|q| q.starts_with("add")));
    schema.runs(Request::Create { collection: "widgets".into(), data: row(&[("fresh", "x")]) });
    assert!(schema.asked.contains(&"add widgets.fresh".to_string()));
}

#[test]
fn names_that_are_not_plain_are_refused_before_anything_is_asked() {
    let mut schema = Schema::new(false, true);
    for name in ["conf_a-b", "CONF", "", "a b"] {
        let err = schema
            .work(Request::Count { collection: name.into(), filters: vec![] })
            .unwrap_err();
        assert!(matches!(err, DatabaseError::InvalidArgument(_)), "{name:?}: {err:?}");
    }
    assert!(schema.asked.is_empty());
}

#[test]
fn pages_that_cannot_be_rendered_are_refused() {
    for (limit, offset) in [(Some(0), 0), (Some(-1), 0), (None, 1), (Some(1), -1)] {
        let opts = ListOptions { limit, offset, ..options() };
        let err = Schema::new(true, false).work(list(opts)).unwrap_err();
        assert!(
            matches!(err, DatabaseError::InvalidArgument(_)),
            "{limit:?} {offset}: {err:?}"
        );
    }
    let opts = ListOptions { limit: Some(2), offset: 4, ..options() };
    let mut schema = Schema::new(true, false);
    let (_, reading) = schema.runs(list(opts));
    let reply = Reply::Batch(vec![
        BatchResult::ScalarI64(5),
        BatchResult::Rows(vec![record("r5")]),
    ]);
    match schema.read(reading, reply) {
        Outcome::List(page) => {
            assert_eq!((page.page, page.page_size, page.total_count), (3, 2, 5));
        }
        other => panic!("{other:?}"),
    }
}

#[test]
fn missing_tables_have_no_rows() {
    let mut schema = Schema::new(false, false);
    schema.exists = false;
    let gone = || "gone".to_string();
    let count = schema.work(Request::Count { collection: gone(), filters: vec![] });
    assert!(matches!(count, Ok(Err(Outcome::Count(0)))));
    let sum = schema.work(Request::Sum {
        collection: gone(),
        field: "n".into(),
        filters: vec![],
    });
    assert!(matches!(sum, Ok(Err(Outcome::Sum(None)))));
    let list = schema.work(Request::List { collection: gone(), opts: options() });
    assert!(matches!(list, Ok(Err(Outcome::List(page))) if page.total_count == 0));
    let aggregate = schema.work(Request::Aggregate {
        collection: gone(),
        aggregate: AggregateSpec {
            select_columns: vec![],
            aggregates: vec![AggregateColumnSpec::Count { alias: "n".into() }],
            filters: vec![],
            group_by: vec![],
            sort: vec![],
            limit: 0,
        },
    });
    assert!(matches!(aggregate, Ok(Err(Outcome::Records(rows))) if rows.is_empty()));
    let updated = schema.work(Request::UpdateGuarded {
        collection: gone(),
        filters: vec![],
        data: Row::new(),
        guards: vec![],
    });
    assert!(matches!(updated, Ok(Err(Outcome::Updated(GuardedUpdate::NoMatch)))));
}

#[test]
fn raw_statements_make_the_cache_forget() {
    let mut schema = Schema::new(false, true);
    let cache = schema.cache.as_mut().unwrap();
    let gen = cache.generation();
    cache.mark_table_present_if_gen("t", gen);
    let (work, reading) =
        schema.runs(Request::ExecRaw { query: "DROP TABLE t".into(), args: vec![] });
    assert!(matches!(work, Work::Execute(Statement::Raw { .. })));
    assert!(matches!(schema.read(reading, Reply::Changed(0)), Outcome::Count(0)));
    assert!(!schema.cache.unwrap().table_known_present("t"));
}

#[test]
fn rows_are_stamped_and_keep_what_the_caller_set() {
    let mut data = row(&[("created_at", "kept")]);
    stamp_timestamps(&mut data, true);
    assert_eq!(data.get("created_at"), Some(&Json::Str("kept".into())));
    let stamp = data.get("updated_at").and_then(Json::as_str).unwrap().to_string();
    assert!(chrono::DateTime::parse_from_rfc3339(&stamp).is_ok(), "{stamp}");
    assert!(stamp.ends_with("+00:00"));

    let mut created = Row::new();
    prepare_created_row(&mut created, false);
    let id = created.get("id").and_then(Json::as_str).unwrap();
    assert_eq!(id.len(), 36);
    assert_eq!(created.get("created_at"), created.get("updated_at"));
    let mut numbered = Row::new();
    prepare_created_row(&mut numbered, true);
    assert_eq!(numbered.get("id"), None);
}

#[test]
fn pairs_stand_in_the_order_of_their_plain_names() {
    let pairs = sorted_pairs(&row(&[("b", "2"), ("a_1", "1"), ("c", "3")])).unwrap();
    let names: Vec<&str> = pairs.iter().map(|(name, _)| name.as_str()).collect();
    assert_eq!(names, ["a_1", "b", "c"]);
    assert_eq!(pairs[1].1, Json::Str("2".into()));
    assert!(matches!(
        sorted_pairs(&row(&[("a", "1"), ("no-good", "2")])),
        Err(DatabaseError::InvalidArgument(_))
    ));
}

#[test]
fn a_batched_write_runs_the_statement_of_the_operation_on_its_own() {
    let delete = plan_op(WriteOp::Delete { collection: "t".into(), id: "1".into() });
    let OpPlan::Statement(_, TxStatement::Execute(batched)) = delete else {
        panic!("a delete needs nothing of the schema")
    };
    let request = Request::Delete { collection: "t".into(), id: "1".into() };
    let Plan::Run(Work::Execute(single), _) = plan(request) else {
        panic!("a delete needs nothing of the schema")
    };
    assert_eq!(format!("{batched:?}"), format!("{single:?}"));

    let filtered = WriteOp::DeleteWhere { collection: "t".into(), filters: vec![] };
    let OpPlan::Prepare(need, _) = plan_op(filtered) else { panic!("a filter is looked up") };
    let request = Request::DeleteWhereCount { collection: "t".into(), filters: vec![] };
    let Plan::Prepare(alone, _) = plan(request) else { panic!("a filter is looked up") };
    assert_eq!(format!("{need:?}"), format!("{alone:?}"));

    let unnamed = WriteOp::Delete { collection: "t; x".into(), id: "1".into() };
    assert!(matches!(plan_op(unnamed), OpPlan::Fail(DatabaseError::InvalidArgument(_))));
}

#[test]
fn a_fraction_is_no_key_of_a_created_record() {
    let mut schema = Schema::new(false, false);
    let mut create = |id: &str, generated: Option<i64>| {
        let mut data = Row::new();
        data.insert("id".into(), parse(id).unwrap());
        let (_, reading) = schema.runs(Request::Create { collection: "t".into(), data });
        match schema.read(reading, Reply::Inserted(generated)) {
            Outcome::Record(record) => record,
            other => panic!("{other:?}"),
        }
    };
    let own = create("18446744073709551615", Some(9));
    assert_eq!(own.id, "18446744073709551615");
    let generated = create("1.5", Some(9));
    assert_eq!(generated.id, "9");
    assert_eq!(generated.data.get("id"), Some(&Json::Int(9)));
    let none = create("1.5", None);
    assert_eq!(none.id, "");
    assert_eq!(none.data.get("id"), parse("1.5").as_ref());
}

fn internal(e: DatabaseError) -> String {
    match e {
        DatabaseError::Internal(message) => message,
        other => panic!("{other:?}"),
    }
}

#[test]
fn results_of_the_wrong_shape_are_shown() {
    assert_eq!(
        internal(first_refusing_guard(&TxResult::Execute(-5), 1).unwrap_err()),
        "run_transaction returned Execute(-5) for the guard probe"
    );
    assert_eq!(
        internal(insert_outcome("t", TxResult::Execute(1), None).unwrap_err()),
        "run_transaction returned Execute(1) for a guarded insert"
    );
    assert_eq!(
        internal(update_outcome(TxResult::Returning(vec![]), None).unwrap_err()),
        "run_transaction returned Returning([]) for a guarded update"
    );
    let rows = TxResult::Returning(vec![named("x")]);
    assert_eq!(
        internal(update_outcome(rows, None).unwrap_err()),
        "run_transaction returned Returning([Record { id: \"\", data: {\"name\": String(\"x\")} }]) \
         for a guarded update"
    );
    let verdicts = [
        ("2", "Number(2)"),
        ("1.5", "Number(1.5)"),
        ("null", "Null"),
        ("true", "Bool(true)"),
        ("[1, {\"a\": \"b\", \"c\": []}]", "Array [Number(1), Object {\"a\": String(\"b\"), \"c\": Array []}]"),
    ];
    for (verdict, shown) in verdicts {
        let given = parse(verdict).unwrap();
        let value: serde_json::Value = serde_json::from_str(verdict).unwrap();
        assert_eq!(given.to_debug(), format!("{value:?}"));
        assert_eq!(given.to_debug(), shown);
        let mut probe = record("");
        probe.data.insert("g0".into(), given);
        let told = first_refusing_guard(&TxResult::Returning(vec![probe]), 1).unwrap_err();
        assert_eq!(
            internal(told),
            format!("the guard probe's g0 is not 0 or 1: {{\"g0\": {shown}}}")
        );
    }
    assert_eq!(
        internal(read_batch(vec![Planned::Created], vec![TxResult::Execute(2)]).unwrap_err()),
        "run_transaction returned Execute(2) for a statement of the other kind"
    );
    assert_eq!(
        internal(read_batch(vec![Planned::Created], vec![TxResult::Returning(vec![])]).unwrap_err()),
        "INSERT \u{2026} RETURNING returned no row"
    );
    let many = Ok(Reply::Transaction::<Double>(vec![
        TxResult::Execute(1),
        TxResult::Returning(vec![]),
    ]));
    assert_eq!(
        internal(Reading::InsertedMany.read(many, &mut None).unwrap_err()),
        "run_transaction returned Returning([]) for a create_many insert"
    );
    let page = || Reading::Page { page: 1, page_size: None, counted: true };
    for (results, message) in [
        (vec![], "list count: None"),
        (vec![BatchResult::Execute(3)], "list count: Some(Execute(3))"),
        (vec![BatchResult::ScalarI64(1)], "list select: None"),
        (
            vec![BatchResult::ScalarI64(1), BatchResult::ScalarI64(-2)],
            "list select: Some(ScalarI64(-2))",
        ),
        (
            vec![BatchResult::ScalarF64(Double { bits: 0, text: "0.0".into() })],
            "list count: Some(ScalarF64(0.0))",
        ),
        (
            vec![BatchResult::FetchOne(record("a\"b"))],
            "list count: Some(FetchOne(Record { id: \"a\\\"b\", data: {} }))",
        ),
        (
            vec![BatchResult::Rows(vec![named("n"), record("r")])],
            "list count: Some(Rows([Record { id: \"\", data: {\"name\": String(\"n\")} }, \
             Record { id: \"r\", data: {} }]))",
        ),
    ] {
        let reply = Ok(Reply::Batch::<Double>(results));
        assert_eq!(
            internal(page().read(reply, &mut None).unwrap_err()),
            format!("run_batch returned an unexpected result shape for {message}")
        );
    }
}

#[test]
fn the_pages_of_a_tied_sort_fit_together() {
    // The column sorted by, and the key; the storage order changes with each
    // select, as it may where rows tie.
    let mut table = vec![(1, "d"), (0, "b"), (1, "a"), (0, "e"), (1, "c")];
    let mut listed = Vec::new();
    let mut schema = Schema::new(false, false);
    for offset in [0, 2, 4] {
        let mut opts = options();
        opts.sort = vec![SortField { field: "name".into(), desc: true }];
        opts.limit = Some(2);
        opts.offset = offset;
        opts.skip_count = true;
        let (work, _) = schema.runs(Request::List { collection: "t".into(), opts });
        let Work::Fetch(Statement::Select { selection, .. }) = work else {
            panic!("a page is selected")
        };
        assert_eq!(selection.unique_key, ["id"]);
        let down = selection.sort.last().map_or(false, |f| f.desc);
        assert!(down);
        table.reverse();
        let mut all = table.clone();
        all.sort_by(|x, y| y.cmp(x));
        let from = selection.offset as usize;
        let to = all.len().min(from + selection.limit.unwrap() as usize);
        listed.extend(all[from..to].iter().map(|(_, id)| *id));
    }
    assert_eq!(listed, ["d", "c", "a", "e", "b"]);
}

#[test]
fn an_add_column_that_cannot_be_rendered_is_the_callers_mistake() {
    let refused = || Answer::Added(Err(Failure::Refused("no such type".into())));
    let told = DatabaseError::InvalidArgument("no such type".into());

    let mut schema = Schema::new(false, true);
    let data = row(&[("extra", "x")]);
    let Plan::Prepare(need, _) = plan(Request::Update { collection: "t".into(), id: "1".into(), data })
    else {
        panic!("an update looks at the schema")
    };
    let mut step = Preparation::start(need, false, &mut schema.cache);
    loop {
        step = match step {
            PrepStep::Ask(Question::AddColumn { .. }, waiting) => {
                let generation = schema.cache.as_ref().unwrap().generation();
                let end = waiting.resume(refused(), false, &mut schema.cache);
                assert!(matches!(&end, PrepStep::Fail(e) if *e == told), "{end:?}");
                assert_eq!(schema.cache.as_ref().unwrap().generation(), generation);
                break;
            }
            PrepStep::Ask(question, waiting) => {
                let answer = schema.answer(question);
                waiting.resume(answer, false, &mut schema.cache)
            }
            other => panic!("{other:?}"),
        };
    }

    let column = |name: &str| Column {
        name: name.into(),
        data_type: DataType::Text,
        nullable: true,
        primary_key: false,
        auto_increment: false,
        unique: false,
        default: None,
    };
    let table = Table {
        name: "t".into(),
        columns: vec![column("id"), column("extra")],
        indexes: vec![],
        primary_key: vec![],
        unique_keys: vec![],
    };
    let mut step = EnsureTable::start(table, &mut schema.cache);
    loop {
        step = match step {
            DdlStep::Act(DdlAction::AddColumn { column: 1 }, run) => {
                let end = run.resume(refused(), &mut schema.cache);
                assert!(matches!(&end, DdlStep::Fail(e) if *e == told), "{end:?}");
                break;
            }
            DdlStep::Act(DdlAction::ListColumns, run) => {
                let answer = Answer::Columns(Ok((vec![named("id")], JsonColumns::none())));
                run.resume(answer, &mut schema.cache)
            }
            DdlStep::Act(_, run) => run.resume(Answer::Added(Ok(0)), &mut schema.cache),
            other => panic!("{other:?}"),
        };
    }
}
