//! From a request's form to the service's form, refusing whatever is not fit
//! to reach a statement. Every name that comes through is a plain identifier.

use vstd::prelude::*;

use crate::database::exec::rows;
use crate::database::exec::upsert;
use crate::database::exec::upsert::windowed_counter_row;
use crate::database::filter;
use crate::database::filter::{convert_filters, convert_sort, convert_when, FilterNode};
use crate::database::handler_error;
use crate::database::handler_error::db_error_to_wafer;
use crate::database::service::{
    AggregateColumnSpec, AggregateSpec, CapGuard, CastType, GroupBySpec, UpsertConflict,
    UpsertSpec, WriteOp,
};
use crate::database::wire::{
    AggregateColumnDef, AggregateRequest, BatchWrite, CapGuardDef, CastName, GroupByDef,
    OnConflict, UpsertRequest,
};
use crate::error::{invalid, ErrorCode, WaferError};
use crate::ident;
use crate::ident::{check_data_names, check_name, check_names};
use crate::json;
use crate::row::Row;
use crate::text;

verus! {

/// What is said of the first name of a list that is not plain.
pub open spec fn names_refusal(names: Seq<Seq<char>>) -> Option<Seq<char>> {
    match rows::first_bad_name(names) {
        Some(bad) => Some(ident::name_refusal(bad)),
        None => None,
    }
}

// ---------------------------------------------------------------------------
// Upserts
// ---------------------------------------------------------------------------

/// How a conflict is resolved, in the service's form.
pub open spec fn conflict_of(c: OnConflict) -> UpsertConflict {
    match c {
        OnConflict::SetColumns(columns) => UpsertConflict::SetColumns(columns),
        OnConflict::WindowedCounter {
            count_field,
            window_field,
            now,
            window_cutoff,
            created_fields,
            updated_fields,
        } => UpsertConflict::WindowedCounter {
            count_field,
            window_field,
            now,
            window_cutoff,
            created_fields,
            updated_fields,
        },
    }
}

/// An upsert in the service's form.
pub open spec fn upsert_of(req: UpsertRequest) -> UpsertSpec {
    UpsertSpec {
        data: req.data,
        conflict_columns: req.conflict_columns,
        on_conflict: conflict_of(req.on_conflict),
    }
}

/// Why an upsert is refused: a name that is not plain, or a windowed counter
/// whose row would not be written whole.
pub open spec fn upsert_refusal(req: UpsertRequest) -> Option<Seq<char>> {
    match names_refusal(upsert::upsert_names(upsert_of(req))) {
        Some(m) => Some(m),
        None => if req.on_conflict is WindowedCounter {
            upsert::windowed_refusal(
                json::entry_views(req.data@),
                text::views(req.conflict_columns@),
            )
        } else {
            None
        },
    }
}

/// Converts an upsert, holding every name in it to the plain identifiers.
pub fn to_upsert_spec(req: UpsertRequest) -> (r: Result<(String, UpsertSpec), WaferError>)
    ensures
        match r {
            Ok(pair) => upsert_refusal(req) is None && pair.0 == req.collection && pair.1
                == upsert_of(req),
            Err(e) => upsert_refusal(req) is Some && e.says(
                ErrorCode::InvalidArgument,
                upsert_refusal(req)->0,
            ),
        },
{
    let windowed = match &req.on_conflict {
        OnConflict::SetColumns(_) => false,
        OnConflict::WindowedCounter { .. } => true,
    };
    let on_conflict = match req.on_conflict {
        OnConflict::SetColumns(columns) => UpsertConflict::SetColumns(columns),
        OnConflict::WindowedCounter {
            count_field,
            window_field,
            now,
            window_cutoff,
            created_fields,
            updated_fields,
        } => UpsertConflict::WindowedCounter {
            count_field,
            window_field,
            now,
            window_cutoff,
            created_fields,
            updated_fields,
        },
    };
    let converted = UpsertSpec {
        data: req.data,
        conflict_columns: req.conflict_columns,
        on_conflict,
    };
    let names = upsert::list_upsert_names(&converted);
    if let Err(e) = check_names(&names) {
        return Err(e);
    }
    if windowed {
        if let Err(e) = windowed_counter_row(&converted.data, &converted.conflict_columns) {
            return Err(db_error_to_wafer(e));
        }
    }
    Ok((req.collection, converted))
}

// ---------------------------------------------------------------------------
// Batches
// ---------------------------------------------------------------------------

/// The refusal of a row that sets a column whose name is not plain.
pub open spec fn refuses_data(e: WaferError, data: Row) -> bool {
    exists|k: Seq<char>|
        #[trigger] data@.dom().contains(k) && !ident::plain(k) && ident::refuses_name(e, k)
}

/// The refusal of filters.
pub open spec fn refuses_filters(e: WaferError, nodes: Seq<FilterNode>) -> bool {
    filter::filters_refusal(nodes) is Some && e.says(
        ErrorCode::InvalidArgument,
        filter::filters_refusal(nodes)->0,
    )
}

/// One write of a batch, in the service's form: refused exactly as the
/// operation of its own is.
pub open spec fn write_converts(w: BatchWrite, r: Result<WriteOp, WaferError>) -> bool {
    match w {
        BatchWrite::Create { collection, data } => match r {
            Ok(op) => ident::row_plain(data) && op == (WriteOp::Create { collection, data }),
            Err(e) => refuses_data(e, data),
        },
        BatchWrite::Update { collection, id, data } => match r {
            Ok(op) => ident::row_plain(data) && op == (WriteOp::Update { collection, id, data }),
            Err(e) => refuses_data(e, data),
        },
        BatchWrite::Delete { collection, id } => r == Ok::<WriteOp, WaferError>(
            WriteOp::Delete { collection, id },
        ),
        BatchWrite::UpdateWhere { collection, filters, data } => match r {
            Ok(op) => ident::row_plain(data) && filter::filters_refusal(filters@) is None && (
            op matches WriteOp::UpdateWhere { collection: c, filters: f, data: d } && c
                == collection && d == data && filter::filters_of(filters@, f@)),
            Err(e) => refuses_data(e, data) || (ident::row_plain(data) && refuses_filters(
                e,
                filters@,
            )),
        },
        BatchWrite::DeleteWhere { collection, filters } => match r {
            Ok(op) => filter::filters_refusal(filters@) is None && (
            op matches WriteOp::DeleteWhere { collection: c, filters: f } && c == collection
                && filter::filters_of(filters@, f@)),
            Err(e) => refuses_filters(e, filters@),
        },
        BatchWrite::Upsert(request) => match r {
            Ok(op) => upsert_refusal(request) is None && op == (WriteOp::Upsert {
                collection: request.collection,
                spec: upsert_of(request),
            }),
            Err(e) => upsert_refusal(request) is Some && e.says(
                ErrorCode::InvalidArgument,
                upsert_refusal(request)->0,
            ),
        },
    }
}

/// The write is one that is not refused.
pub open spec fn write_sound(w: BatchWrite) -> bool {
    match w {
        BatchWrite::Create { data, .. } => ident::row_plain(data),
        BatchWrite::Update { data, .. } => ident::row_plain(data),
        BatchWrite::Delete { .. } => true,
        BatchWrite::UpdateWhere { filters, data, .. } => ident::row_plain(data)
            && filter::filters_refusal(filters@) is None,
        BatchWrite::DeleteWhere { filters, .. } => filter::filters_refusal(filters@) is None,
        BatchWrite::Upsert(request) => upsert_refusal(request) is None,
    }
}

/// A write is converted exactly where it is not one that is refused.
pub proof fn lemma_sound(w: BatchWrite, r: Result<WriteOp, WaferError>)
    requires
        write_converts(w, r),
    ensures
        r is Ok <==> write_sound(w),
{
}

/// Converts one write of a batch, validating it as the operation of its own.
pub fn to_write_op(write: BatchWrite) -> (r: Result<WriteOp, WaferError>)
    ensures
        write_converts(write, r),
{
    match write {
        BatchWrite::Create { collection, data } => {
            if let Err(e) = check_data_names(&data) {
                return Err(e);
            }
            Ok(WriteOp::Create { collection, data })
        },
        BatchWrite::Update { collection, id, data } => {
            if let Err(e) = check_data_names(&data) {
                return Err(e);
            }
            Ok(WriteOp::Update { collection, id, data })
        },
        BatchWrite::Delete { collection, id } => Ok(WriteOp::Delete { collection, id }),
        BatchWrite::UpdateWhere { collection, filters, data } => {
            if let Err(e) = check_data_names(&data) {
                return Err(e);
            }
            match convert_filters(filters) {
                Ok(filters) => Ok(WriteOp::UpdateWhere { collection, filters, data }),
                Err(e) => Err(e),
            }
        },
        BatchWrite::DeleteWhere { collection, filters } => match convert_filters(filters) {
            Ok(filters) => Ok(WriteOp::DeleteWhere { collection, filters }),
            Err(e) => Err(e),
        },
        BatchWrite::Upsert(request) => match to_upsert_spec(request) {
            Ok((collection, spec)) => Ok(WriteOp::Upsert { collection, spec }),
            Err(e) => Err(e),
        },
    }
}

// ---------------------------------------------------------------------------
// Guards
// ---------------------------------------------------------------------------

/// Why one guard is refused.
pub open spec fn guard_refusal(g: CapGuardDef) -> Option<Seq<char>> {
    match g {
        CapGuardDef::CountBelow { filters, .. } => filter::filters_refusal(filters@),
        CapGuardDef::SumAtMost { field, filters, .. } => if !ident::plain(field@) {
            Some(ident::name_refusal(field@))
        } else {
            filter::filters_refusal(filters@)
        },
    }
}

/// `guard` is the guard `def` in the service's form.
pub open spec fn guard_converts(def: CapGuardDef, guard: CapGuard) -> bool {
    match def {
        CapGuardDef::CountBelow { filters, cap } => guard matches CapGuard::CountBelow {
            filters: f,
            cap: k,
        } && k == cap && filter::filters_of(filters@, f@),
        CapGuardDef::SumAtMost { field, filters, add, cap } => guard matches CapGuard::SumAtMost {
            field: x,
            filters: f,
            add: a,
            cap: k,
        } && x == field && a == add && k == cap && filter::filters_of(filters@, f@),
    }
}

/// What is said of the first guard that is refused.
pub open spec fn first_guard_refusal(defs: Seq<CapGuardDef>) -> Option<Seq<char>>
    decreases defs.len(),
{
    if defs.len() == 0 {
        None
    } else {
        match first_guard_refusal(defs.drop_last()) {
            Some(m) => Some(m),
            None => guard_refusal(defs.last()),
        }
    }
}

/// Why guards are refused: too many of them, or one that is refused itself.
pub open spec fn guards_refusal(defs: Seq<CapGuardDef>, most: int) -> Option<Seq<char>> {
    if defs.len() > most {
        Some(
            text::decimal(defs.len() as int) + " guards; at most "@ + text::decimal(most)
                + " per call"@,
        )
    } else {
        first_guard_refusal(defs)
    }
}

proof fn lemma_guards_stop(defs: Seq<CapGuardDef>, n: int)
    requires
        0 <= n <= defs.len(),
        first_guard_refusal(defs.take(n)) is Some,
    ensures
        first_guard_refusal(defs) == first_guard_refusal(defs.take(n)),
    decreases defs.len() - n,
{
    if n == defs.len() {
        assert(defs.take(n) =~= defs);
    } else {
        assert(defs.take(n + 1).drop_last() =~= defs.take(n));
        lemma_guards_stop(defs, n + 1);
    }
}

fn to_cap_guard(def: CapGuardDef) -> (r: Result<CapGuard, WaferError>)
    ensures
        match r {
            Ok(g) => guard_refusal(def) is None && guard_converts(def, g),
            Err(e) => guard_refusal(def) is Some && e.says(
                ErrorCode::InvalidArgument,
                guard_refusal(def)->0,
            ),
        },
{
    match def {
        CapGuardDef::CountBelow { filters, cap } => match convert_filters(filters) {
            Ok(filters) => Ok(CapGuard::CountBelow { filters, cap }),
            Err(e) => Err(e),
        },
        CapGuardDef::SumAtMost { field, filters, add, cap } => {
            if let Err(e) = check_name(field.as_str()) {
                return Err(e);
            }
            match convert_filters(filters) {
                Ok(filters) => Ok(CapGuard::SumAtMost { field, filters, add, cap }),
                Err(e) => Err(e),
            }
        },
    }
}

/// Converts the guards of a guarded write, refusing more than `most`.
pub fn to_cap_guards(guards: Vec<CapGuardDef>, most: usize) -> (r: Result<
    Vec<CapGuard>,
    WaferError,
>)
    ensures
        match r {
            Ok(out) => guards_refusal(guards@, most as int) is None && out@.len() == guards@.len()
                && (forall|i: int|
                0 <= i < guards@.len() ==> guard_converts(#[trigger] guards@[i], out@[i])),
            Err(e) => guards_refusal(guards@, most as int) is Some && e.says(
                ErrorCode::InvalidArgument,
                guards_refusal(guards@, most as int)->0,
            ),
        },
{
    let ghost all = guards@;
    let n: usize = guards.len();
    if n > most {
        return Err(
            invalid(
                text::join4(
                    text::usize_text(n).as_str(),
                    " guards; at most ",
                    text::usize_text(most).as_str(),
                    " per call",
                ),
            ),
        );
    }
    let mut out: Vec<CapGuard> = Vec::new();
    proof {
        assert(all.take(0) =~= Seq::empty());
    }
    for def in it: guards
        invariant
            it.seq() == all,
            guards@ == all,
            all.len() <= most,
            out@.len() == it.index(),
            first_guard_refusal(all.take(it.index())) is None,
            forall|i: int| 0 <= i < it.index() ==> guard_converts(#[trigger] all[i], out@[i]),
    {
        proof {
            assert(all.take(it.index() + 1).drop_last() =~= all.take(it.index()));
            assert(all.take(it.index() + 1).last() == def);
            if first_guard_refusal(all.take(it.index() + 1)) is Some {
                lemma_guards_stop(all, it.index() + 1);
            }
        }
        match to_cap_guard(def) {
            Ok(g) => out.push(g),
            Err(e) => {
                return Err(e);
            },
        }
    }
    proof {
        assert(all.take(all.len() as int) =~= all);
    }
    Ok(out)
}

// ---------------------------------------------------------------------------
// Aggregates
// ---------------------------------------------------------------------------

/// Whether a cast is allowed: an average only to a real number.
pub open spec fn cast_allowed(c: CastType, only_double: bool) -> bool {
    !only_double || c == CastType::Double
}

/// The casts that are allowed, as they are told.
pub open spec fn allowed_casts(only_double: bool) -> Seq<char> {
    if only_double {
        "[\"DOUBLE PRECISION\"]"@
    } else {
        "[\"BIGINT\", \"DOUBLE PRECISION\"]"@
    }
}

/// Why a cast is refused.
pub open spec fn cast_refusal(cast: Option<CastName>, only_double: bool) -> Option<Seq<char>> {
    match cast {
        None => None,
        Some(name) => if name.parsed is Some && cast_allowed(name.parsed->0, only_double) {
            None
        } else {
            Some(
                "aggregate cast_as "@ + text::debug_rendering(name.text@) + " is not one of "@
                    + allowed_casts(only_double),
            )
        },
    }
}

/// The cast itself.
pub open spec fn cast_of(cast: Option<CastName>) -> Option<CastType> {
    match cast {
        None => None,
        Some(name) => name.parsed,
    }
}

/// Reads an aggregate's optional cast against those that are allowed.
fn parse_cast(cast: Option<CastName>, only_double: bool) -> (r: Result<
    Option<CastType>,
    WaferError,
>)
    ensures
        match r {
            Ok(c) => cast_refusal(cast, only_double) is None && c == cast_of(cast),
            Err(e) => cast_refusal(cast, only_double) is Some && e.says(
                ErrorCode::InvalidArgument,
                cast_refusal(cast, only_double)->0,
            ),
        },
{
    match cast {
        None => Ok(None),
        Some(name) => {
            if let Some(c) = name.parsed {
                if !only_double || c == CastType::Double {
                    return Ok(Some(c));
                }
            }
            let allowed = if only_double {
                "[\"DOUBLE PRECISION\"]"
            } else {
                "[\"BIGINT\", \"DOUBLE PRECISION\"]"
            };
            Err(
                invalid(
                    text::join4(
                        "aggregate cast_as ",
                        text::debug_text(name.text.as_str()).as_str(),
                        " is not one of ",
                        allowed,
                    ),
                ),
            )
        },
    }
}

/// The first of two refusals.
pub open spec fn either(a: Option<Seq<char>>, b: Option<Seq<char>>) -> Option<Seq<char>> {
    match a {
        Some(m) => Some(m),
        None => b,
    }
}

/// Why one output column of an aggregate is refused: its names, then its
/// predicate, then its cast.
pub open spec fn column_refusal(a: AggregateColumnDef) -> Option<Seq<char>> {
    match a {
        AggregateColumnDef::Count { alias } => names_refusal(seq![alias@]),
        AggregateColumnDef::Sum { field, alias, cast_as } => either(
            names_refusal(seq![field@, alias@]),
            cast_refusal(cast_as, false),
        ),
        AggregateColumnDef::Avg { field, alias, cast_as } => either(
            names_refusal(seq![field@, alias@]),
            cast_refusal(cast_as, true),
        ),
        AggregateColumnDef::Max { field, alias } => names_refusal(seq![field@, alias@]),
        AggregateColumnDef::CaseWhenSum { when, alias } => either(
            names_refusal(seq![alias@]),
            filter::when_refusal(when@, "case-when-sum"@),
        ),
        AggregateColumnDef::SumWhere { field, when, alias, cast_as } => either(
            names_refusal(seq![field@, alias@]),
            either(filter::when_refusal(when@, "sum-where"@), cast_refusal(cast_as, false)),
        ),
    }
}

/// `c` is the output column `a` in the service's form.
pub open spec fn column_converts(a: AggregateColumnDef, c: AggregateColumnSpec) -> bool {
    match a {
        AggregateColumnDef::Count { alias } => c == (AggregateColumnSpec::Count { alias }),
        AggregateColumnDef::Sum { field, alias, cast_as } => c == (AggregateColumnSpec::Sum {
            field,
            alias,
            cast_as: cast_of(cast_as),
        }),
        AggregateColumnDef::Avg { field, alias, cast_as } => c == (AggregateColumnSpec::Avg {
            field,
            alias,
            cast_as: cast_of(cast_as),
        }),
        AggregateColumnDef::Max { field, alias } => c == (AggregateColumnSpec::Max {
            field,
            alias,
        }),
        AggregateColumnDef::CaseWhenSum { when, alias } => c matches
            AggregateColumnSpec::CaseWhenSum { when: w, alias: x } && x == alias
            && filter::all_convert(when@, w@),
        AggregateColumnDef::SumWhere { field, when, alias, cast_as } => c matches
            AggregateColumnSpec::SumWhere { field: f, when: w, alias: x, cast_as: k } && f == field
            && x == alias && k == cast_of(cast_as) && filter::all_convert(when@, w@),
    }
}

/// One name refuses as a list of that name does.
proof fn lemma_one_name(a: Seq<char>)
    ensures
        names_refusal(seq![a]) == if ident::plain(a) {
            None
        } else {
            Some(ident::name_refusal(a))
        },
{
    reveal_with_fuel(rows::first_bad_name, 2);
    assert(seq![a].drop_last() =~= Seq::empty());
}

/// Two names refuse as the first that is not plain.
proof fn lemma_two_names(a: Seq<char>, b: Seq<char>)
    ensures
        names_refusal(seq![a, b]) == if !ident::plain(a) {
            Some(ident::name_refusal(a))
        } else if !ident::plain(b) {
            Some(ident::name_refusal(b))
        } else {
            None
        },
{
    reveal_with_fuel(rows::first_bad_name, 3);
    assert(seq![a, b].drop_last() =~= seq![a]);
    assert(seq![a].drop_last() =~= Seq::empty());
}

fn check_two(a: &str, b: &str) -> (r: Result<(), WaferError>)
    ensures
        match r {
            Ok(()) => names_refusal(seq![a@, b@]) is None,
            Err(e) => names_refusal(seq![a@, b@]) is Some && e.says(
                ErrorCode::InvalidArgument,
                names_refusal(seq![a@, b@])->0,
            ),
        },
{
    proof {
        lemma_two_names(a@, b@);
    }
    if let Err(e) = check_name(a) {
        return Err(e);
    }
    check_name(b)
}

fn check_one(a: &str) -> (r: Result<(), WaferError>)
    ensures
        match r {
            Ok(()) => names_refusal(seq![a@]) is None,
            Err(e) => names_refusal(seq![a@]) is Some && e.says(
                ErrorCode::InvalidArgument,
                names_refusal(seq![a@])->0,
            ),
        },
{
    proof {
        lemma_one_name(a@);
    }
    check_name(a)
}

fn to_aggregate_column(a: AggregateColumnDef) -> (r: Result<AggregateColumnSpec, WaferError>)
    ensures
        match r {
            Ok(c) => column_refusal(a) is None && column_converts(a, c),
            Err(e) => column_refusal(a) is Some && e.says(
                ErrorCode::InvalidArgument,
                column_refusal(a)->0,
            ),
        },
{
    match a {
        AggregateColumnDef::Count { alias } => {
            if let Err(e) = check_one(alias.as_str()) {
                return Err(e);
            }
            Ok(AggregateColumnSpec::Count { alias })
        },
        AggregateColumnDef::Sum { field, alias, cast_as } => {
            if let Err(e) = check_two(field.as_str(), alias.as_str()) {
                return Err(e);
            }
            match parse_cast(cast_as, false) {
                Ok(cast_as) => Ok(AggregateColumnSpec::Sum { field, alias, cast_as }),
                Err(e) => Err(e),
            }
        },
        AggregateColumnDef::Avg { field, alias, cast_as } => {
            if let Err(e) = check_two(field.as_str(), alias.as_str()) {
                return Err(e);
            }
            // An average is rarely integral, and an integer cast rounds it on
            // one backend and truncates it on another.
            match parse_cast(cast_as, true) {
                Ok(cast_as) => Ok(AggregateColumnSpec::Avg { field, alias, cast_as }),
                Err(e) => Err(e),
            }
        },
        AggregateColumnDef::Max { field, alias } => {
            if let Err(e) = check_two(field.as_str(), alias.as_str()) {
                return Err(e);
            }
            Ok(AggregateColumnSpec::Max { field, alias })
        },
        AggregateColumnDef::CaseWhenSum { when, alias } => {
            if let Err(e) = check_one(alias.as_str()) {
                return Err(e);
            }
            match convert_when(when, "case-when-sum") {
                Ok(when) => Ok(AggregateColumnSpec::CaseWhenSum { when, alias }),
                Err(e) => Err(e),
            }
        },
        AggregateColumnDef::SumWhere { field, when, alias, cast_as } => {
            if let Err(e) = check_two(field.as_str(), alias.as_str()) {
                return Err(e);
            }
            let when = match convert_when(when, "sum-where") {
                Ok(when) => when,
                Err(e) => {
                    return Err(e);
                },
            };
            match parse_cast(cast_as, false) {
                Ok(cast_as) => Ok(AggregateColumnSpec::SumWhere { field, when, alias, cast_as }),
                Err(e) => Err(e),
            }
        },
    }
}

/// What is said of the first output column that is refused.
pub open spec fn columns_refusal(s: Seq<AggregateColumnDef>) -> Option<Seq<char>>
    decreases s.len(),
{
    if s.len() == 0 {
        None
    } else {
        either(columns_refusal(s.drop_last()), column_refusal(s.last()))
    }
}

/// `c` are the output columns `s` in the service's form, one by one.
pub open spec fn columns_convert(s: Seq<AggregateColumnDef>, c: Seq<AggregateColumnSpec>) -> bool {
    &&& c.len() == s.len()
    &&& forall|i: int| 0 <= i < s.len() ==> column_converts(#[trigger] s[i], c[i])
}

proof fn lemma_columns_stop(s: Seq<AggregateColumnDef>, n: int)
    requires
        0 <= n <= s.len(),
        columns_refusal(s.take(n)) is Some,
    ensures
        columns_refusal(s) == columns_refusal(s.take(n)),
    decreases s.len() - n,
{
    if n == s.len() {
        assert(s.take(n) =~= s);
    } else {
        assert(s.take(n + 1).drop_last() =~= s.take(n));
        lemma_columns_stop(s, n + 1);
    }
}

fn to_aggregate_columns(given: Vec<AggregateColumnDef>) -> (r: Result<
    Vec<AggregateColumnSpec>,
    WaferError,
>)
    ensures
        match r {
            Ok(c) => columns_refusal(given@) is None && columns_convert(given@, c@),
            Err(e) => columns_refusal(given@) is Some && e.says(
                ErrorCode::InvalidArgument,
                columns_refusal(given@)->0,
            ),
        },
{
    let ghost all = given@;
    let mut out: Vec<AggregateColumnSpec> = Vec::new();
    proof {
        assert(all.take(0) =~= Seq::empty());
    }
    for a in it: given
        invariant
            it.seq() == all,
            given@ == all,
            out@.len() == it.index(),
            columns_refusal(all.take(it.index())) is None,
            forall|i: int| 0 <= i < it.index() ==> column_converts(#[trigger] all[i], out@[i]),
    {
        proof {
            assert(all.take(it.index() + 1).drop_last() =~= all.take(it.index()));
            assert(all.take(it.index() + 1).last() == a);
            if columns_refusal(all.take(it.index() + 1)) is Some {
                lemma_columns_stop(all, it.index() + 1);
            }
        }
        match to_aggregate_column(a) {
            Ok(c) => out.push(c),
            Err(e) => {
                return Err(e);
            },
        }
    }
    proof {
        assert(all.take(all.len() as int) =~= all);
    }
    Ok(out)
}

/// The column a group term reads.
pub open spec fn group_name(g: GroupByDef) -> Seq<char> {
    match g {
        GroupByDef::Column(c) => c@,
        GroupByDef::DateBucket { field } => field@,
    }
}

/// A group term in the service's form.
pub open spec fn group_of(g: GroupByDef) -> GroupBySpec {
    match g {
        GroupByDef::Column(c) => GroupBySpec::Column(c),
        GroupByDef::DateBucket { field } => GroupBySpec::DateBucket { field },
    }
}

/// The columns group terms read, in order.
pub open spec fn group_names(s: Seq<GroupByDef>) -> Seq<Seq<char>> {
    s.map_values(|g: GroupByDef| group_name(g))
}

fn to_groups(given: Vec<GroupByDef>) -> (r: Result<Vec<GroupBySpec>, WaferError>)
    ensures
        match r {
            Ok(out) => names_refusal(group_names(given@)) is None && out@ == given@.map_values(
                |g: GroupByDef| group_of(g),
            ),
            Err(e) => names_refusal(group_names(given@)) is Some && e.says(
                ErrorCode::InvalidArgument,
                names_refusal(group_names(given@))->0,
            ),
        },
{
    let ghost all = given@;
    let mut names: Vec<String> = Vec::new();
    let mut out: Vec<GroupBySpec> = Vec::new();
    for g in it: given
        invariant
            it.seq() == all,
            names@.len() == it.index(),
            out@.len() == it.index(),
            forall|i: int| 0 <= i < it.index() ==> #[trigger] names@[i]@ == group_name(all[i]),
            forall|i: int| 0 <= i < it.index() ==> #[trigger] out@[i] == group_of(all[i]),
    {
        match g {
            GroupByDef::Column(c) => {
                names.push(c.clone());
                out.push(GroupBySpec::Column(c));
            },
            GroupByDef::DateBucket { field } => {
                names.push(field.clone());
                out.push(GroupBySpec::DateBucket { field });
            },
        }
    }
    proof {
        assert(text::views(names@) =~= group_names(all));
        assert(out@ =~= all.map_values(|g: GroupByDef| group_of(g)));
    }
    if let Err(e) = check_names(&names) {
        return Err(e);
    }
    Ok(out)
}

/// Why an aggregate is refused: its selected columns, its output columns, its
/// group terms, its filters and its sort keys, in that order.
pub open spec fn aggregate_refusal(req: AggregateRequest) -> Option<Seq<char>> {
    either(
        names_refusal(text::views(req.select_columns@)),
        either(
            columns_refusal(req.aggregates@),
            either(
                names_refusal(group_names(req.group_by@)),
                either(
                    filter::filters_refusal(req.filters@),
                    filter::sort_refusal(req.sort@),
                ),
            ),
        ),
    )
}

/// `a` is the aggregate `req` in the service's form.
pub open spec fn aggregate_converts(req: AggregateRequest, a: AggregateSpec) -> bool {
    &&& a.select_columns == req.select_columns
    &&& columns_convert(req.aggregates@, a.aggregates@)
    &&& filter::filters_of(req.filters@, a.filters@)
    &&& a.group_by@ == req.group_by@.map_values(|g: GroupByDef| group_of(g))
    &&& filter::sorts_by(req.sort@, a.sort@)
    &&& a.limit == req.limit
}

/// Converts a grouped aggregate, holding every name in it to the plain
/// identifiers and every cast to those that are allowed.
pub fn to_aggregate_spec(req: AggregateRequest) -> (r: Result<
    (String, AggregateSpec),
    WaferError,
>)
    ensures
        match r {
            Ok(pair) => aggregate_refusal(req) is None && pair.0 == req.collection
                && aggregate_converts(req, pair.1),
            Err(e) => aggregate_refusal(req) is Some && e.says(
                ErrorCode::InvalidArgument,
                aggregate_refusal(req)->0,
            ),
        },
{
    if let Err(e) = check_names(&req.select_columns) {
        return Err(e);
    }
    let aggregates = match to_aggregate_columns(req.aggregates) {
        Ok(c) => c,
        Err(e) => {
            return Err(e);
        },
    };
    let group_by = match to_groups(req.group_by) {
        Ok(g) => g,
        Err(e) => {
            return Err(e);
        },
    };
    let filters = match convert_filters(req.filters) {
        Ok(f) => f,
        Err(e) => {
            return Err(e);
        },
    };
    let sort = match convert_sort(req.sort) {
        Ok(s) => s,
        Err(e) => {
            return Err(e);
        },
    };
    Ok(
        (
            req.collection,
            AggregateSpec {
                select_columns: req.select_columns,
                aggregates,
                filters,
                group_by,
                sort,
                limit: req.limit,
            },
        ),
    )
}

// ---------------------------------------------------------------------------
// Names that reach a statement
// ---------------------------------------------------------------------------

/// Every name in a converted upsert is a plain identifier.
pub proof fn converted_upserts_are_plain(req: UpsertRequest)
    requires
        upsert_refusal(req) is None,
    ensures
        filter::names_plain(upsert::upsert_names(upsert_of(req))),
{
    rows::lemma_no_bad_name(upsert::upsert_names(upsert_of(req)));
}

/// Every name in a converted aggregate is a plain identifier: what it reads,
/// the aliases it gives out, and what it is sorted by.
pub proof fn converted_aggregates_are_plain(req: AggregateRequest, a: AggregateSpec)
    requires
        aggregate_refusal(req) is None,
        aggregate_converts(req, a),
    ensures
        filter::names_plain(a.reads()),
        filter::names_plain(a.alias_names()),
        filter::names_plain(rows::sort_columns(a.sort@)),
{
    rows::lemma_no_bad_name(text::views(req.select_columns@));
    rows::lemma_no_bad_name(group_names(req.group_by@));
    lemma_columns_plain(req.aggregates@, a.aggregates@);
    filter::converted_filters_are_plain(req.filters@, a.filters@);
    lemma_sort_plain(req.sort@, a.sort@);
    let selected = text::views(a.select_columns@);
    let read = crate::database::service::aggregate_reads(a.aggregates@);
    let grouped = crate::database::service::group_reads(a.group_by@);
    let filtered = filter::filter_columns(a.filters@);
    assert(grouped =~= group_names(req.group_by@));
    assert forall|i: int| 0 <= i < a.reads().len() implies ident::plain(#[trigger] a.reads()[i]) by {
        let n1 = selected.len();
        let n2 = n1 + read.len();
        let n3 = n2 + grouped.len();
        if i < n1 {
            assert(a.reads()[i] == selected[i]);
        } else if i < n2 {
            assert(a.reads()[i] == read[i - n1]);
        } else if i < n3 {
            assert(a.reads()[i] == grouped[i - n2]);
        } else {
            assert(a.reads()[i] == filtered[i - n3]);
        }
    }
    assert forall|i: int| 0 <= i < a.alias_names().len() implies ident::plain(
        #[trigger] a.alias_names()[i],
    ) by {
        lemma_column_at(req.aggregates@, i);
        lemma_column_plain(req.aggregates@[i], a.aggregates@[i]);
    }
}

proof fn lemma_column_at(s: Seq<AggregateColumnDef>, i: int)
    requires
        columns_refusal(s) is None,
        0 <= i < s.len(),
    ensures
        column_refusal(s[i]) is None,
    decreases s.len(),
{
    if i < s.len() - 1 {
        lemma_column_at(s.drop_last(), i);
    }
}

proof fn lemma_column_plain(a: AggregateColumnDef, c: AggregateColumnSpec)
    requires
        column_refusal(a) is None,
        column_converts(a, c),
    ensures
        ident::plain(c.alias()),
        filter::names_plain(c.reads()),
{
    match a {
        AggregateColumnDef::Count { alias } => {
            lemma_one_name(alias@);
        },
        AggregateColumnDef::Sum { field, alias, .. } => {
            lemma_two_names(field@, alias@);
        },
        AggregateColumnDef::Avg { field, alias, .. } => {
            lemma_two_names(field@, alias@);
        },
        AggregateColumnDef::Max { field, alias } => {
            lemma_two_names(field@, alias@);
        },
        AggregateColumnDef::CaseWhenSum { when, alias } => {
            lemma_one_name(alias@);
            filter::converted_names_are_plain(when@, c->CaseWhenSum_when@);
        },
        AggregateColumnDef::SumWhere { field, when, alias, .. } => {
            lemma_two_names(field@, alias@);
            filter::converted_names_are_plain(when@, c->SumWhere_when@);
            let tree = filter::tree_columns(c->SumWhere_when@);
            assert forall|i: int| 0 <= i < c.reads().len() implies ident::plain(
                #[trigger] c.reads()[i],
            ) by {
                if i > 0 {
                    assert(c.reads()[i] == tree[i - 1]);
                }
            }
        },
    }
}

proof fn lemma_columns_plain(s: Seq<AggregateColumnDef>, c: Seq<AggregateColumnSpec>)
    requires
        columns_refusal(s) is None,
        columns_convert(s, c),
    ensures
        filter::names_plain(crate::database::service::aggregate_reads(c)),
    decreases s.len(),
{
    if s.len() > 0 {
        let last = s.len() - 1;
        assert forall|i: int| 0 <= i < last implies column_converts(
            #[trigger] s.drop_last()[i],
            c.drop_last()[i],
        ) by {
            assert(column_converts(s[i], c[i]));
        }
        lemma_columns_plain(s.drop_last(), c.drop_last());
        assert(column_converts(s[last], c[last]));
        lemma_column_plain(s[last], c[last]);
        let x = crate::database::service::aggregate_reads(c.drop_last());
        let y = c.last().reads();
        assert forall|i: int| 0 <= i < (x + y).len() implies ident::plain(#[trigger] (x + y)[i]) by {
            if i < x.len() {
                assert(ident::plain(x[i]));
            } else {
                assert(ident::plain(y[i - x.len()]));
            }
        }
    }
}

proof fn lemma_sort_plain(
    defs: Seq<crate::database::filter::SortFieldDef>,
    keys: Seq<crate::database::filter::SortField>,
)
    requires
        filter::sort_refusal(defs) is None,
        filter::sorts_by(defs, keys),
    ensures
        filter::names_plain(rows::sort_columns(keys)),
    decreases defs.len(),
{
    if defs.len() > 0 {
        assert forall|i: int| 0 <= i < defs.drop_last().len() implies (
        #[trigger] keys.drop_last()[i]) == (crate::database::filter::SortField {
            field: defs.drop_last()[i].field,
            desc: defs.drop_last()[i].desc,
        }) by {
            assert(keys[i] == keys.drop_last()[i]);
        }
        lemma_sort_plain(defs.drop_last(), keys.drop_last());
        let all = rows::sort_columns(keys);
        assert forall|i: int| 0 <= i < all.len() implies ident::plain(#[trigger] all[i]) by {
            if i < keys.len() - 1 {
                assert(rows::sort_columns(keys.drop_last())[i] == all[i]);
            } else {
                assert(keys[i] == keys.last());
            }
        }
    }
}

proof fn lemma_no_bad(names: Seq<Seq<char>>)
    ensures
        names_refusal(names) is None <==> forall|i: int|
            0 <= i < names.len() ==> ident::plain(#[trigger] names[i]),
    decreases names.len(),
{
    if names.len() > 0 {
        let init = names.drop_last();
        lemma_no_bad(init);
        assert(names[names.len() - 1] == names.last());
        if names_refusal(names) is None {
            assert forall|i: int| 0 <= i < names.len() implies ident::plain(
                #[trigger] names[i],
            ) by {
                if i < init.len() {
                    assert(init[i] == names[i]);
                }
            }
        }
        if forall|i: int| 0 <= i < names.len() ==> ident::plain(#[trigger] names[i]) {
            assert forall|i: int| 0 <= i < init.len() implies ident::plain(#[trigger] init[i]) by {
                assert(names[i] == init[i]);
            }
        }
    }
}

/// An upsert that sets columns is accepted exactly where every column that it
/// names is plain: those of its row, of its conflict, and those to be set.
pub proof fn which_upserts_are_accepted(req: UpsertRequest, columns: Vec<String>)
    requires
        req.on_conflict == OnConflict::SetColumns(columns),
    ensures
        upsert_refusal(req) is None <==> (forall|i: int|
            0 <= i < req.data@.len() ==> ident::plain((#[trigger] req.data@[i]).0@)) && (forall|
            i: int,
        |
            0 <= i < req.conflict_columns@.len() ==> ident::plain(
                (#[trigger] req.conflict_columns@[i])@,
            )) && (forall|i: int|
            0 <= i < columns@.len() ==> ident::plain((#[trigger] columns@[i])@)),
{
    let names = upsert::upsert_names(upsert_of(req));
    let data = upsert::row_names(req.data@);
    let conflict = text::views(req.conflict_columns@);
    let set = text::views(columns@);
    lemma_no_bad(names);
    assert(names =~= data + conflict + set);
    if upsert_refusal(req) is None {
        assert forall|i: int| 0 <= i < req.data@.len() implies ident::plain(
            (#[trigger] req.data@[i]).0@,
        ) by {
            assert(names[i] == data[i]);
        }
        assert forall|i: int| 0 <= i < req.conflict_columns@.len() implies ident::plain(
            (#[trigger] req.conflict_columns@[i])@,
        ) by {
            assert(names[data.len() + i] == conflict[i]);
        }
        assert forall|i: int| 0 <= i < columns@.len() implies ident::plain(
            (#[trigger] columns@[i])@,
        ) by {
            assert(names[data.len() + conflict.len() + i] == set[i]);
        }
    } else {
        let k = choose|k: int| 0 <= k < names.len() && !ident::plain(#[trigger] names[k]);
        if k < data.len() {
            assert(!ident::plain(req.data@[k].0@));
        } else if k < data.len() + conflict.len() {
            assert(!ident::plain(req.conflict_columns@[k - data.len()]@));
        } else {
            assert(!ident::plain(columns@[k - data.len() - conflict.len()]@));
        }
    }
}

/// Guards are accepted up to the most that one write may have, that number
/// included, where each of them is.
pub proof fn which_guards_are_accepted(
    defs: Vec<CapGuardDef>,
    most: usize,
    r: Result<Vec<CapGuard>, WaferError>,
)
    requires
        call_ensures(to_cap_guards, (defs, most), r),
    ensures
        r is Ok <==> defs@.len() <= most && first_guard_refusal(defs@) is None,
        r is Ok ==> r->Ok_0@.len() == defs@.len(),
{
}

/// An average is cast to a real number or not at all; a sum is cast to whatever
/// is named, where it names a type.
pub proof fn which_casts_are_accepted(cast: Option<CastName>, only_double: bool)
    ensures
        cast is None ==> cast_refusal(cast, only_double) is None,
        cast matches Some(name) ==> (cast_refusal(cast, true) is None <==> name.parsed == Some(
            CastType::Double,
        )),
        cast matches Some(name) ==> (cast_refusal(cast, false) is None <==> name.parsed is Some),
{
}

} // verus!
