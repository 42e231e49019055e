use wafer_core::database::convert::to_write_op;
use wafer_core::database::exec::ops::{Outcome, Request};
use wafer_core::database::filter::{FilterDef, FilterNode, FilterOp, OperatorName};
use wafer_core::database::handler::{
    config_flag_enabled, handle_lifecycle, handle_message, migrated, strict_schema_from, Ask,
    Incoming, Response, Rules, Served, ServiceCall, Startup, Step, Told, Waiting,
    STRICT_SCHEMA_CONFIG_KEY,
};
use wafer_core::database::handler_error::db_error_to_wafer;
use wafer_core::database::schema::Table;
use wafer_core::database::service::{
    CastType, DatabaseError, GuardedInsert, Record, RecordList, WriteOp, WriteOutcome,
};
use wafer_core::database::wire::{
    AccessedWrite, AggregateColumnDef, AggregateRequest, BatchWrite, CapGuardDef, CastName,
    ColumnDef, DefaultDef, GroupByDef, ListRequest, OnConflict, OpAccess, TableDef, UpsertRequest,
    WireRequest,
};
use wafer_core::error::{DetailCode, ErrorCode, WaferError};
use wafer_core::handler_util::{Body, ResourceAccess};
use wafer_core::json::Json;
use wafer_core::row::Row;

type S = Step<f64>;

#[test]
fn preserves_duplicate_column_error_messages() {
    let w = db_error_to_wafer(DatabaseError::Internal(
        "duplicate column name: block".to_string(),
    ));
    assert_eq!(w.code, ErrorCode::Internal);
    assert!(
        w.message.contains("duplicate column name"),
        "expected preserved message, got: {}",
        w.message
    );
    let w = db_error_to_wafer(DatabaseError::Internal(
        r#"column "block" of relation "variables" already exists"#.to_string(),
    ));
    assert!(
        w.message.contains("already exists"),
        "expected preserved message, got: {}",
        w.message
    );
}

#[test]
fn scrubs_generic_internal_errors() {
    let w = db_error_to_wafer(DatabaseError::Internal(
        "connection refused: tcp://10.0.0.5:5432".to_string(),
    ));
    assert_eq!(w.message, "internal database error");
}

#[test]
fn unavailable_is_transient_and_scrubbed() {
    let w = db_error_to_wafer(DatabaseError::Unavailable(
        "connect to db.internal:5432: connection refused".into(),
    ));
    assert_eq!(w.code, ErrorCode::Unavailable);
    assert_eq!(w.message, "database temporarily unavailable");
}

#[test]
fn not_found_stays_descriptive() {
    let w = db_error_to_wafer(DatabaseError::NotFound);
    assert_eq!(w.code, ErrorCode::NotFound);
    assert_eq!(w.message, "record not found");
}

#[test]
fn statement_refusals_carry_a_detail() {
    let w = db_error_to_wafer(DatabaseError::StatementLimitExceeded("too many".into()));
    assert_eq!((w.code, w.message.as_str()), (ErrorCode::InvalidArgument, "too many"));
    assert_eq!(w.detail, Some(DetailCode::StatementLimitExceeded));
    let w = db_error_to_wafer(DatabaseError::ResourceExhausted("used up".into()));
    assert_eq!((w.code, w.message.as_str()), (ErrorCode::ResourceExhausted, "used up"));
    assert_eq!(w.detail, Some(DetailCode::StatementBudgetExhausted));
    let w = db_error_to_wafer(DatabaseError::AlreadyExists("UNIQUE users.id".into()));
    assert_eq!(w.message, "a record with this key already exists");
    let w = db_error_to_wafer(DatabaseError::InvalidArgument("as told".into()));
    assert_eq!(w.message, "as told");
    let w = db_error_to_wafer(DatabaseError::Other("driver".into()));
    assert_eq!((w.code, w.message.as_str()), (ErrorCode::Internal, "internal database error"));
}

fn rules() -> Rules {
    Rules {
        raw_sql: "__raw_sql__".into(),
        ddl: "__ddl__".into(),
        schema: "__schema__".into(),
        most_guards: 2,
        most_writes: 3,
    }
}

fn incoming(kind: &str, access: Vec<ResourceAccess>, request: WireRequest) -> Incoming {
    Incoming {
        kind: kind.into(),
        access: Some(OpAccess::On(access)),
        body: Body::Request(request),
    }
}

/// Starts a request and lets its caller pass.
fn authorized(request: WireRequest) -> S {
    let message = match &request {
        WireRequest::Batch { .. } => Incoming {
            kind: "database.batch".into(),
            access: Some(OpAccess::PerWrite),
            body: Body::Request(request),
        },
        _ => incoming("database.op", vec![ResourceAccess::Write], request),
    };
    match handle_message::<f64>(message, &rules()) {
        Step::Ask(Ask::Authorize(_), w) => w.resume(Told::Authorized(Ok(())), &rules()),
        other => panic!("{other:?}"),
    }
}

fn refusal(step: S) -> WaferError {
    match step {
        Step::Refuse(e) => e,
        other => panic!("expected a refusal: {other:?}"),
    }
}

fn row(entries: &[(&str, Json)]) -> Row {
    let mut row = Row::new();
    for (k, v) in entries {
        row.insert(k.to_string(), v.clone());
    }
    row
}

fn text(s: &str) -> Json {
    Json::Str(s.to_string())
}

fn eq(field: &str) -> FilterNode {
    FilterNode::Leaf(FilterDef {
        field: field.into(),
        operator: OperatorName { text: "eq".into(), parsed: Ok(FilterOp::Equal) },
        value: Json::Int(1),
        column: None,
    })
}

const BAD_NAME: &str =
    "\"a-b\" is not a collection or column name (1 to 63 of: lowercase letters, digits and `_`)";

#[test]
fn a_request_is_authorized_on_the_name_it_gives() {
    let request = WireRequest::Get { collection: "users".into(), id: "1".into() };
    let message = incoming(
        "database.get",
        vec![ResourceAccess::Read, ResourceAccess::Append],
        request,
    );
    match handle_message::<f64>(message, &rules()) {
        Step::Ask(Ask::Authorize(checks), _) => {
            let got: Vec<_> = checks.iter().map(|c| (c.resource.as_str(), c.access)).collect();
            assert_eq!(
                got,
                [("users", ResourceAccess::Read), ("users", ResourceAccess::Append)]
            );
        }
        other => panic!("{other:?}"),
    }
    let request = WireRequest::Get { collection: "a-b".into(), id: "1".into() };
    let e = refusal(handle_message(
        incoming("database.get", vec![ResourceAccess::Read], request),
        &rules(),
    ));
    assert_eq!(e.code, ErrorCode::InvalidArgument);
    assert_eq!(e.message, BAD_NAME);
}

#[test]
fn unclassified_operations_are_refused() {
    for access in [None, Some(OpAccess::PerWrite)] {
        let message = Incoming {
            kind: "database.get".into(),
            access,
            body: Body::Request(WireRequest::Get { collection: "c".into(), id: "1".into() }),
        };
        let e = refusal(handle_message(message, &rules()));
        assert_eq!(e.code, ErrorCode::Internal);
        assert_eq!(
            e.message,
            "BUG: DATABASE_OP_ACCESS names no single-resource access for `database.get`"
        );
    }
    let e = refusal(handle_message(
        incoming("database.batch", vec![], WireRequest::Batch { ops: vec![] }),
        &rules(),
    ));
    assert_eq!(
        e.message,
        "BUG: DATABASE_OP_ACCESS does not classify database.batch per write"
    );
}

#[test]
fn unknown_and_malformed_messages_are_refused() {
    let message = Incoming { kind: "database.x".into(), access: None, body: Body::Unknown };
    let e = refusal(handle_message(message, &rules()));
    assert_eq!(e.code, ErrorCode::Unimplemented);
    assert_eq!(e.message, "unknown database operation: database.x");
    let message = Incoming {
        kind: "database.get".into(),
        access: None,
        body: Body::Malformed { op: "database.get".into(), why: "eof".into() },
    };
    let e = refusal(handle_message(message, &rules()));
    assert_eq!(e.message, "invalid database.get request: eof");
}

#[test]
fn a_refused_caller_gets_the_refusal() {
    let request = WireRequest::Get { collection: "c".into(), id: "1".into() };
    let Step::Ask(_, w) = handle_message::<f64>(
        incoming("database.get", vec![ResourceAccess::Read], request),
        &rules(),
    ) else {
        panic!("asks first")
    };
    let denied = WaferError::new(ErrorCode::PermissionDenied, "no grant".into());
    let e = refusal(w.resume(Told::Authorized(Err(denied)), &rules()));
    assert_eq!(e.message, "no grant");
}

#[test]
fn raw_statements_have_resources_of_their_own() {
    for (request, resource) in [
        (WireRequest::QueryRaw { query: "q".into(), args: vec![] }, "__raw_sql__"),
        (WireRequest::ExecRaw { query: "q".into(), args: vec![] }, "__raw_sql__"),
        (WireRequest::Ddl { query: "q".into(), args: vec![] }, "__ddl__"),
    ] {
        match handle_message::<f64>(incoming("k", vec![ResourceAccess::Write], request), &rules()) {
            Step::Ask(Ask::Authorize(checks), _) => assert_eq!(checks[0].resource, resource),
            other => panic!("{other:?}"),
        }
    }
}

#[test]
fn get_is_served_and_answered() {
    let step = authorized(WireRequest::Get { collection: "c".into(), id: "1".into() });
    let Step::Ask(Ask::Call(ServiceCall::Operation(Request::Get { collection, id })), w) = step
    else {
        panic!("{step:?}")
    };
    assert_eq!((collection.as_str(), id.as_str()), ("c", "1"));
    let record = Record { id: "1".into(), data: Row::new() };
    match w.resume(Told::Served(Ok(Served::Operation(Outcome::Record(record)))), &rules()) {
        Step::<f64>::Respond(Response::Record(r)) => assert_eq!(r.id, "1"),
        other => panic!("{other:?}"),
    }
    let Step::Ask(_, w) = authorized(WireRequest::Get { collection: "c".into(), id: "1".into() })
    else {
        panic!()
    };
    let e = refusal(w.resume(Told::Served(Err(DatabaseError::NotFound)), &rules()));
    assert_eq!(e.code, ErrorCode::NotFound);
    let Step::Ask(_, w) = authorized(WireRequest::Get { collection: "c".into(), id: "1".into() })
    else {
        panic!()
    };
    let e = refusal(w.resume(Told::MayWrite(true), &rules()));
    assert_eq!(e.message, "the answer does not fit what was asked");
}

fn list(columns: Option<Vec<String>>) -> WireRequest {
    WireRequest::List(ListRequest {
        collection: "c".into(),
        filters: vec![FilterNode::Any { any: vec![eq("a"), eq("b")] }],
        sort: vec![],
        limit: Some(5),
        offset: 1,
        skip_count: true,
        columns,
    })
}

#[test]
fn a_list_keeps_its_filters_in_the_tree() {
    let step = authorized(list(Some(vec!["a".into()])));
    let Step::Ask(Ask::Call(ServiceCall::Operation(Request::List { opts, .. })), w) = step else {
        panic!("{step:?}")
    };
    assert!(opts.filters.is_empty());
    assert_eq!(opts.filter_tree.unwrap().len(), 1);
    assert_eq!((opts.limit, opts.offset, opts.skip_count), (Some(5), 1, true));
    let page = RecordList { records: vec![], total_count: 0, page: 1, page_size: 5 };
    assert!(matches!(
        w.resume(Told::Served(Ok(Served::Operation(Outcome::List(page)))), &rules()),
        Step::<f64>::Respond(Response::List(_))
    ));
    assert_eq!(
        refusal(authorized(list(Some(vec![])))).message,
        "columns must be non-empty when specified"
    );
    assert_eq!(refusal(authorized(list(Some(vec!["a-b".into()])))).message, BAD_NAME);
}

fn create(data: Row) -> WireRequest {
    WireRequest::Create { collection: "audit".into(), data }
}

fn may_write(step: S, yes: bool) -> S {
    match step {
        Step::Ask(Ask::MayWrite { .. }, w) => w.resume(Told::MayWrite(yes), &rules()),
        other => panic!("{other:?}"),
    }
}

fn columns(step: S, names: &[&str]) -> S {
    match step {
        Step::Ask(Ask::SchemaColumns { .. }, w) => w.resume(
            Told::Columns(Ok(names.iter().map(ToString::to_string).collect())),
            &rules(),
        ),
        other => panic!("{other:?}"),
    }
}

#[test]
fn a_writer_inserts_freely() {
    let step = may_write(authorized(create(row(&[("id", text("x"))]))), true);
    assert!(matches!(
        step,
        Step::Ask(Ask::Call(ServiceCall::Operation(Request::Create { .. })), Waiting::Serving(_))
    ));
    assert_eq!(refusal(authorized(create(row(&[("a-b", text("x"))])))).message, BAD_NAME);
}

#[test]
fn an_appender_sets_no_server_column_and_adds_none() {
    let e = refusal(may_write(authorized(create(row(&[("id", text("x"))]))), false));
    assert_eq!(e.code, ErrorCode::PermissionDenied);
    assert_eq!(
        e.message,
        "an append-only insert into `audit` cannot set `id`; the server assigns it"
    );
    let start = || may_write(authorized(create(row(&[("note", text("x"))]))), false);
    let e = refusal(columns(start(), &["id", "created_at", "note"]));
    assert_eq!(
        e.message,
        "`audit` has no column `updated_at`, and an append-only insert cannot add one"
    );
    let e = refusal(columns(start(), &["id", "created_at", "updated_at"]));
    assert_eq!(e.code, ErrorCode::PermissionDenied);
    assert_eq!(
        e.message,
        "`audit` has no column `note`, and an append-only insert cannot add one"
    );
    assert!(matches!(
        columns(start(), &["id", "created_at", "updated_at", "note"]),
        Step::Ask(Ask::Call(ServiceCall::Operation(Request::Create { .. })), _)
    ));
}

#[test]
fn many_rows_are_admitted_as_statements_first() {
    let rows = vec![row(&[("a", Json::Int(1))]), row(&[("a-b", Json::Int(2))])];
    let start = || {
        let rows = vec![row(&[("a", Json::Int(1))]), row(&[("a-b", Json::Int(2))])];
        match authorized(WireRequest::CreateMany { collection: "c".into(), rows }) {
            Step::Ask(Ask::AdmitStatements { count, what }, w) => {
                assert_eq!((count, what.as_str()), (2, "create_many"));
                w
            }
            other => panic!("{other:?}"),
        }
    };
    assert_eq!(rows.len(), 2);
    let refused = DatabaseError::StatementLimitExceeded("2 statements".into());
    assert_eq!(
        refusal(start().resume(Told::Admitted(Err(refused)), &rules())).message,
        "2 statements"
    );
    assert_eq!(
        refusal(start().resume(Told::Admitted(Ok(())), &rules())).message,
        BAD_NAME
    );
}

fn write(collection: &str, data: Row) -> AccessedWrite {
    AccessedWrite {
        write: BatchWrite::Create { collection: collection.into(), data },
        access: ResourceAccess::Append,
    }
}

#[test]
fn a_batch_is_authorized_write_by_write_and_once_each() {
    let ops = vec![
        write("a", Row::new()),
        write("b", Row::new()),
        write("a", Row::new()),
        AccessedWrite {
            write: BatchWrite::Delete { collection: "a".into(), id: "1".into() },
            access: ResourceAccess::Write,
        },
    ];
    let message = Incoming {
        kind: "database.batch".into(),
        access: Some(OpAccess::PerWrite),
        body: Body::Request(WireRequest::Batch { ops }),
    };
    match handle_message::<f64>(message, &rules()) {
        Step::Ask(Ask::Authorize(checks), _) => {
            let got: Vec<_> = checks.iter().map(|c| (c.resource.as_str(), c.access)).collect();
            assert_eq!(
                got,
                [
                    ("a", ResourceAccess::Append),
                    ("b", ResourceAccess::Append),
                    ("a", ResourceAccess::Write)
                ]
            );
        }
        other => panic!("{other:?}"),
    }
}

fn admitted(ops: Vec<AccessedWrite>) -> S {
    match authorized(WireRequest::Batch { ops }) {
        Step::Ask(Ask::AdmitStatements { what, .. }, w) => {
            assert_eq!(what, "batch");
            w.resume(Told::Admitted(Ok(())), &rules())
        }
        other => panic!("{other:?}"),
    }
}

#[test]
fn a_batch_holds_every_append_to_the_rules() {
    let ops = || {
        vec![
            write("mine", row(&[("id", text("x"))])),
            write("audit", row(&[("note", text("x"))])),
            write("audit", row(&[("more", text("x"))])),
        ]
    };
    let step = may_write(admitted(ops()), true);
    let step = may_write(step, false);
    let e = refusal(columns(step, &["id", "created_at", "updated_at", "note"]));
    assert_eq!(
        e.message,
        "`audit` has no column `more`, and an append-only insert cannot add one"
    );
    let step = may_write(may_write(admitted(ops()), true), false);
    let step = columns(step, &["id", "created_at", "updated_at", "note", "more"]);
    let Step::Ask(Ask::Call(ServiceCall::Batch(writes)), w) = step else {
        panic!("{step:?}")
    };
    assert_eq!(writes.len(), 3);
    assert!(matches!(&writes[0], WriteOp::Create { collection, .. } if collection == "mine"));
    let outcomes = vec![WriteOutcome::Deleted { rows_affected: 1 }];
    assert!(matches!(
        w.resume(Told::Served(Ok(Served::Batch(outcomes))), &rules()),
        Step::<f64>::Respond(Response::Batch(o)) if o.len() == 1
    ));
}

#[test]
fn a_batch_refuses_the_first_write_that_is_refused() {
    let ops = vec![
        AccessedWrite {
            write: BatchWrite::UpdateWhere {
                collection: "c".into(),
                filters: vec![FilterNode::All { all: vec![] }],
                data: Row::new(),
            },
            access: ResourceAccess::Write,
        },
        AccessedWrite {
            write: BatchWrite::Update {
                collection: "c".into(),
                id: "1".into(),
                data: row(&[("a-b", Json::Null)]),
            },
            access: ResourceAccess::Write,
        },
    ];
    assert_eq!(
        refusal(admitted(ops)).message,
        "filter group must have at least one child"
    );
}

#[test]
fn guards_are_counted_and_checked() {
    let guard = |field: &str| CapGuardDef::SumAtMost {
        field: field.into(),
        filters: vec![eq("owner")],
        add: 1,
        cap: 2,
    };
    let request = |guards| WireRequest::InsertGuarded {
        collection: "c".into(),
        data: Row::new(),
        guards,
    };
    let e = refusal(authorized(request(vec![guard("a"), guard("a"), guard("a")])));
    assert_eq!(e.message, "3 guards; at most 2 per call");
    assert_eq!(refusal(authorized(request(vec![guard("a-b")]))).message, BAD_NAME);
    let step = may_write(authorized(request(vec![guard("size")])), true);
    let Step::Ask(_, w) = step else { panic!("{step:?}") };
    let refused = GuardedInsert::Refused { guard: 0 };
    assert!(matches!(
        w.resume(Told::Served(Ok(Served::Operation(Outcome::Inserted(refused)))), &rules()),
        Step::<f64>::Respond(Response::Inserted(GuardedInsert::Refused { guard: 0 }))
    ));
}

fn counter(data: Vec<(String, Json)>, conflict: &[&str]) -> WireRequest {
    WireRequest::Upsert(UpsertRequest {
        collection: "c".into(),
        data,
        conflict_columns: conflict.iter().map(ToString::to_string).collect(),
        on_conflict: OnConflict::WindowedCounter {
            count_field: "count".into(),
            window_field: "window_start".into(),
            now: 10,
            window_cutoff: 5,
            created_fields: vec!["created_at".into()],
            updated_fields: vec!["updated_at".into()],
        },
    })
}

#[test]
fn upserts_are_held_to_plain_names_and_whole_rows() {
    let data = || vec![("id".to_string(), text("r1")), ("ip".to_string(), text("a"))];
    assert!(matches!(
        authorized(counter(data(), &["ip"])),
        Step::Ask(Ask::Call(ServiceCall::Operation(Request::Upsert { .. })), _)
    ));
    let e = refusal(authorized(counter(data(), &["ip", "id"])));
    assert_eq!(e.code, ErrorCode::InvalidArgument);
    let mut more = data();
    more.push(("extra".to_string(), text("x")));
    assert_eq!(refusal(authorized(counter(more, &["ip"]))).code, ErrorCode::InvalidArgument);
    let mut bad = data();
    bad.push(("a-b".to_string(), text("x")));
    assert_eq!(refusal(authorized(counter(bad, &["ip"]))).message, BAD_NAME);
}

fn aggregate(aggregates: Vec<AggregateColumnDef>) -> WireRequest {
    WireRequest::Aggregate(AggregateRequest {
        collection: "c".into(),
        select_columns: vec!["a".into()],
        aggregates,
        filters: vec![eq("a")],
        group_by: vec![GroupByDef::Column("a".into()), GroupByDef::DateBucket { field: "d".into() }],
        sort: vec![],
        limit: 0,
    })
}

#[test]
fn aggregates_are_held_to_names_casts_and_predicates() {
    assert_eq!(
        refusal(authorized(aggregate(vec![]))).message,
        "aggregate requires at least one aggregate column"
    );
    let cast = |text: &str, parsed| Some(CastName { text: text.into(), parsed });
    let avg = |cast_as| AggregateColumnDef::Avg { field: "n".into(), alias: "m".into(), cast_as };
    let sum = |cast_as| AggregateColumnDef::Sum { field: "n".into(), alias: "m".into(), cast_as };
    assert_eq!(
        refusal(authorized(aggregate(vec![avg(cast("BIGINT", Some(CastType::BigInt)))]))).message,
        "aggregate cast_as \"BIGINT\" is not one of [\"DOUBLE PRECISION\"]"
    );
    assert_eq!(
        refusal(authorized(aggregate(vec![sum(cast("TEXT", None))]))).message,
        "aggregate cast_as \"TEXT\" is not one of [\"BIGINT\", \"DOUBLE PRECISION\"]"
    );
    let empty = AggregateColumnDef::CaseWhenSum { when: vec![], alias: "n".into() };
    assert_eq!(
        refusal(authorized(aggregate(vec![empty]))).message,
        "case-when-sum aggregate requires at least one predicate in `when`"
    );
    let bad = AggregateColumnDef::Count { alias: "a-b".into() };
    assert_eq!(refusal(authorized(aggregate(vec![bad]))).message, BAD_NAME);
    assert!(matches!(
        authorized(aggregate(vec![sum(cast("BIGINT", Some(CastType::BigInt)))])),
        Step::Ask(Ask::Call(ServiceCall::Operation(Request::Aggregate { aggregate, .. })), _)
            if aggregate.group_by.len() == 2 && aggregate.filters.len() == 1
    ));
}

fn column(kind: &str, default: Option<DefaultDef>) -> ColumnDef {
    ColumnDef {
        name: "n".into(),
        kind: kind.into(),
        nullable: true,
        primary_key: false,
        auto_increment: false,
        unique: false,
        default,
    }
}

#[test]
fn schema_changes_need_the_schema_resource_too() {
    let table = TableDef {
        name: "t".into(),
        columns: vec![column("text", None)],
        indexes: vec![],
        primary_key: vec![],
        unique_keys: vec![],
    };
    let step = authorized(WireRequest::EnsureTable { table });
    let Step::Ask(Ask::Authorize(checks), w) = step else {
        panic!("{step:?}")
    };
    assert_eq!(checks.len(), 1);
    assert_eq!(checks[0].resource, "__schema__");
    assert_eq!(checks[0].access, ResourceAccess::Write);
    let step: S = w.resume(Told::Authorized(Ok(())), &rules());
    let Step::Ask(Ask::Call(ServiceCall::EnsureTable(table)), w) = step else {
        panic!("{step:?}")
    };
    assert_eq!(table.columns.len(), 1);
    match w.resume(Told::Served(Ok(Served::Changed)), &rules()) {
        Step::<f64>::Respond(Response::Table { table_name }) => assert_eq!(table_name, "t"),
        other => panic!("{other:?}"),
    }
}

#[test]
fn tables_are_asked_after_without_the_schema_resource() {
    let step = authorized(WireRequest::TableExists { table_name: "t".into() });
    let Step::Ask(Ask::Call(ServiceCall::TableExists { .. }), w) = step else {
        panic!("{step:?}")
    };
    match w.resume(Told::Served(Ok(Served::Exists(true))), &rules()) {
        Step::<f64>::Respond(Response::TableExists { table_name, exists }) => {
            assert_eq!((table_name.as_str(), exists), ("t", true));
        }
        other => panic!("{other:?}"),
    }
}

#[test]
fn flags_are_read_loosely() {
    for on in ["true", " TRUE ", "1", "\t1\n", "True"] {
        assert!(config_flag_enabled(on), "{on:?}");
    }
    for off in ["", "false", "0", "yes", "11", "tru e"] {
        assert!(!config_flag_enabled(off), "{off:?}");
    }
}

#[test]
fn starting_up_configures_then_migrates() {
    let table = || Table {
        name: "t".into(),
        columns: vec![],
        indexes: vec![],
        primary_key: vec![],
        unique_keys: vec![],
    };
    assert!(matches!(handle_lifecycle(false, true, vec![table()]), Startup::Nothing));
    assert!(matches!(
        handle_lifecycle(true, true, vec![]),
        Startup::Configure { strict_schema: true }
    ));
    assert!(matches!(
        handle_lifecycle(true, false, vec![table()]),
        Startup::Migrate { strict_schema: false, tables } if tables.len() == 1
    ));
    let e = migrated(Err(DatabaseError::Unavailable("busy".into()))).unwrap_err();
    assert_eq!(e.code, ErrorCode::Unavailable);
    assert_eq!(e.message, "schema migration failed: database unavailable: busy");
    assert!(migrated(Ok(())).is_ok());
}

#[test]
fn the_schema_flag_is_read_from_the_configuration() {
    let config = row(&[
        (STRICT_SCHEMA_CONFIG_KEY, text(" True ")),
        ("OFF", text("no")),
        ("NUMBER", Json::Int(1)),
    ]);
    assert!(strict_schema_from(&config, "WAFER_RUN__DATABASE__STRICT_SCHEMA"));
    assert!(!strict_schema_from(&config, "OFF"));
    assert!(!strict_schema_from(&config, "NUMBER"));
    assert!(!strict_schema_from(&config, "ABSENT"));
}

#[test]
fn a_write_is_refused_in_a_batch_as_on_its_own() {
    let group = || FilterNode::Any { any: vec![eq("a"), eq("b")] };
    for filter in [eq("a"), eq("a-b"), group()] {
        let again = match &filter {
            FilterNode::Leaf(leaf) => eq(&leaf.field),
            _ => group(),
        };
        let single = authorized(WireRequest::DeleteWhere {
            collection: "t".into(),
            filters: vec![filter],
        });
        let batched =
            to_write_op(BatchWrite::DeleteWhere { collection: "t".into(), filters: vec![again] });
        match (single, batched) {
            (Step::Refuse(alone), Err(e)) => assert_eq!(e, alone),
            (Step::Ask(..), Ok(_)) => {}
            other => panic!("{other:?}"),
        }
    }
}

#[test]
fn a_call_holds_no_more_writes_than_it_may() {
    let rows = |n: usize| (0..n).map(|_| Row::new()).collect::<Vec<Row>>();
    let many = |n: usize| {
        authorized(WireRequest::CreateMany { collection: "c".into(), rows: rows(n) })
    };
    assert!(matches!(many(3), Step::Ask(Ask::AdmitStatements { count: 3, .. }, _)));
    let e = refusal(many(4));
    assert_eq!((e.code, e.message.as_str()), (ErrorCode::InvalidArgument, "4 rows; at most 3 per call"));

    let batch = |n: usize| {
        let ops = (0..n).map(|_| write("a", Row::new())).collect();
        authorized(WireRequest::Batch { ops })
    };
    assert!(matches!(batch(3), Step::Ask(Ask::AdmitStatements { count: 3, .. }, _)));
    let e = refusal(batch(4));
    assert_eq!(
        (e.code, e.message.as_str()),
        (ErrorCode::InvalidArgument, "4 writes; at most 3 per call")
    );
}
