//! Guarded writes: a write that happens only while every guard holds, with
//! the check and the write in one transaction.
//!
//! The transaction runs what the backend wants first, then (where there are
//! guards) a probe of every guard, the write itself, and the same probe again.
//! A refused write names the guard that refused it.

use vstd::prelude::*;

use crate::database::exec::statement;
use crate::database::exec::statement::{show_tx, Statement, TxResult, TxStatement};
use crate::database::service;
use crate::database::service::{
    clone_guards, CapGuard, CapGuardView, DatabaseError, GuardedInsert, GuardedUpdate, Record,
};
use crate::json;
use crate::json::JsonView;
use crate::row::Row;
use crate::text;

verus! {

/// The probe of the guards `guards` over `table`.
pub open spec fn is_probe(s: TxStatement, table: String, guards: Seq<CapGuardView>) -> bool {
    s matches TxStatement::Returning(Statement::GuardProbe { table: t, guards: g }) && t == table
        && text::views(g@) == guards
}

/// The write as a statement of a transaction.
pub open spec fn write_statement(write: Statement, returning: bool) -> TxStatement {
    if returning {
        TxStatement::Returning(write)
    } else {
        TxStatement::Execute(write)
    }
}

/// How many statements follow the preamble: the write, and a probe on either
/// side where there are guards.
pub open spec fn guarded_len(guards: nat) -> int {
    if guards == 0 {
        1
    } else {
        3
    }
}

/// `ops` is the transaction of a guarded write.
pub open spec fn is_guarded_transaction(
    ops: Seq<TxStatement>,
    table: String,
    guards: Seq<CapGuardView>,
    write: Statement,
    returning: bool,
    preamble: u8,
) -> bool {
    &&& ops.len() == preamble + guarded_len(guards.len())
    &&& forall|i: int|
        0 <= i < preamble ==> (#[trigger] ops[i]) == TxStatement::Execute(
            Statement::GuardPreamble { table, part: i as usize },
        )
    &&& if guards.len() == 0 {
        ops[preamble as int] == write_statement(write, returning)
    } else {
        &&& is_probe(ops[preamble as int], table, guards)
        &&& ops[preamble + 1] == write_statement(write, returning)
        &&& is_probe(ops[preamble + 2], table, guards)
    }
}

/// The transaction of a guarded write to `table`. `preamble` is how many
/// statements the backend wants run first.
pub fn guarded_transaction(
    table: String,
    guards: Vec<CapGuard>,
    write: Statement,
    returning: bool,
    preamble: u8,
) -> (r: Vec<TxStatement>)
    ensures
        is_guarded_transaction(
            r@,
            table,
            text::views(guards@),
            write,
            returning,
            preamble,
        ),
{
    let mut ops: Vec<TxStatement> = Vec::new();
    for i in 0..(preamble as usize)
        invariant
            ops@.len() == i,
            forall|k: int|
                0 <= k < i ==> (#[trigger] ops@[k]) == TxStatement::Execute(
                    Statement::GuardPreamble { table, part: k as usize },
                ),
    {
        ops.push(TxStatement::Execute(Statement::GuardPreamble { table: table.clone(), part: i }));
    }
    let guarded = guards.len() > 0;
    if guarded {
        ops.push(
            TxStatement::Returning(
                Statement::GuardProbe { table: table.clone(), guards: clone_guards(&guards) },
            ),
        );
    }
    if returning {
        ops.push(TxStatement::Returning(write));
    } else {
        ops.push(TxStatement::Execute(write));
    }
    if guarded {
        ops.push(TxStatement::Returning(Statement::GuardProbe { table, guards }));
    }
    ops
}

/// The probe's column for the guard at `index`.
pub open spec fn probe_column(index: int) -> Seq<char> {
    seq!['g'] + text::decimal(index)
}

/// What the probe says of the guard at `index`: 1 where it holds, 0 where it
/// refuses.
pub open spec fn verdict(row: Map<Seq<char>, JsonView>, index: int) -> Option<i64> {
    if row.dom().contains(probe_column(index)) {
        row[probe_column(index)].signed()
    } else {
        None
    }
}

/// The first guard, from `index` on, that does not simply hold.
pub open spec fn first_not_held(row: Map<Seq<char>, JsonView>, index: int, guards: int) -> Option<
    int,
>
    decreases guards - index,
{
    if index >= guards {
        None
    } else if verdict(row, index) == Some(1i64) {
        first_not_held(row, index + 1, guards)
    } else {
        Some(index)
    }
}

/// What a probe's result says: the first guard that refuses, if any does.
pub open spec fn probe_says(
    probe: TxResult,
    guards: int,
    r: Result<Option<usize>, DatabaseError>,
) -> bool {
    match probe {
        TxResult::Execute(_) => r matches Err(DatabaseError::Internal(m)) && m@
            == "run_transaction returned "@ + statement::tx_shown(probe) + " for the guard probe"@,
        TxResult::Returning(rows) => if rows@.len() == 0 {
            r matches Err(DatabaseError::Internal(m)) && m@ == "the guard probe returned no row"@
        } else {
            let row = rows@[0].data@;
            match first_not_held(row, 0, guards) {
                None => r == Ok::<Option<usize>, DatabaseError>(None),
                Some(i) => if verdict(row, i) == Some(0i64) {
                    r matches Ok(Some(g)) && g == i
                } else {
                    r matches Err(DatabaseError::Internal(m)) && m@ == "the guard probe's "@
                        + probe_column(i) + " is not 0 or 1: "@ + ("{"@ + json::debug_entries(
                        rows@[0].data.listed(),
                    ) + "}"@)
                },
            }
        },
    }
}

/// The index of the first guard that a probe says refuses, or `None` where all
/// hold.
pub fn first_refusing_guard(probe: &TxResult, guards: usize) -> (r: Result<
    Option<usize>,
    DatabaseError,
>)
    ensures
        probe_says(*probe, guards as int, r),
{
    let row: &Row = match probe {
        TxResult::Execute(_) => {
            return Err(
                DatabaseError::Internal(
                    text::join3(
                        "run_transaction returned ",
                        show_tx(probe).as_str(),
                        " for the guard probe",
                    ),
                ),
            );
        },
        TxResult::Returning(rows) => {
            if rows.len() == 0 {
                return Err(DatabaseError::Internal("the guard probe returned no row".to_owned()));
            }
            &rows[0].data
        },
    };
    let mut i: usize = 0;
    while i < guards
        invariant
            i <= guards,
            *probe matches TxResult::Returning(rows) && rows@.len() > 0 && *row == rows@[0].data,
            first_not_held(row@, 0, guards as int) == first_not_held(row@, i as int, guards as int),
        decreases guards - i,
    {
        let mut column = String::new();
        column.push('g');
        let column = column.concat(text::usize_text(i).as_str());
        proof {
            assert(column@ =~= probe_column(i as int));
        }
        let says: Option<i64> = match row.get(column.as_str()) {
            Some(v) => v.as_i64(),
            None => None,
        };
        match says {
            Some(1) => {},
            Some(0) => {
                return Ok(Some(i));
            },
            _ => {
                return Err(
                    DatabaseError::Internal(
                        text::join4(
                            "the guard probe's ",
                            column.as_str(),
                            " is not 0 or 1: ",
                            row.to_debug().as_str(),
                        ),
                    ),
                );
            },
        }
        i += 1;
    }
    Ok(None)
}

/// What is said of a transaction that gave another number of results than it
/// has statements.
pub open spec fn wrong_count(got: int, want: int) -> Seq<char> {
    "run_transaction returned "@ + text::decimal(got) + " results for "@ + text::decimal(want)
        + " statements"@
}

/// What the results of a guarded write say: the write's own result, and the
/// guard that refused it. That is the first that the probe before the write
/// names or, where that names none, the first that the probe after it names.
pub open spec fn guarded_says(
    results: Seq<TxResult>,
    guards: int,
    preamble: int,
    r: Result<(TxResult, Option<usize>), DatabaseError>,
) -> bool {
    let want = preamble + guarded_len(guards as nat);
    if results.len() != want {
        r matches Err(DatabaseError::Internal(m)) && m@ == wrong_count(results.len() as int, want)
    } else if guards == 0 {
        r matches Ok(pair) && pair.0 == results[preamble] && pair.1 is None
    } else {
        let before = results[preamble];
        let after = results[preamble + 2];
        match r {
            Ok(pair) => pair.0 == results[preamble + 1] && match pair.1 {
                Some(g) => probe_says(before, guards, Ok(Some(g))) || (probe_says(
                    before,
                    guards,
                    Ok(None),
                ) && probe_says(after, guards, Ok(Some(g)))),
                None => probe_says(before, guards, Ok(None)) && probe_says(after, guards, Ok(None)),
            },
            Err(e) => probe_says(before, guards, Err(e)) || (probe_says(before, guards, Ok(None))
                && probe_says(after, guards, Err(e))),
        }
    }
}

/// Reads the results of a guarded write.
pub fn guarded_result(results: Vec<TxResult>, guards: usize, preamble: u8) -> (r: Result<
    (TxResult, Option<usize>),
    DatabaseError,
>)
    ensures
        guarded_says(results@, guards as int, preamble as int, r),
{
    let want: usize = if guards == 0 {
        preamble as usize + 1
    } else {
        preamble as usize + 3
    };
    let got: usize = results.len();
    if got != want {
        return Err(
            DatabaseError::Internal(
                text::join5(
                    "run_transaction returned ",
                    text::usize_text(got).as_str(),
                    " results for ",
                    text::usize_text(want).as_str(),
                    " statements",
                ),
            ),
        );
    }
    let ghost given = results@;
    let mut results = results;
    let first: usize = preamble as usize;
    if guards == 0 {
        let write = results.swap_remove(first);
        return Ok((write, None));
    }
    let refused = match first_refusing_guard(&results[first], guards) {
        Err(e) => return Err(e),
        Ok(Some(index)) => Some(index),
        Ok(None) => match first_refusing_guard(&results[first + 2], guards) {
            Err(e) => return Err(e),
            Ok(after) => after,
        },
    };
    let write = results.swap_remove(first + 1);
    Ok((write, refused))
}

/// What a guarded insert did.
pub open spec fn insert_says(
    table: Seq<char>,
    write: TxResult,
    refused: Option<usize>,
    r: Result<GuardedInsert, DatabaseError>,
) -> bool {
    match write {
        TxResult::Execute(_) => r matches Err(DatabaseError::Internal(m)) && m@
            == "run_transaction returned "@ + statement::tx_shown(write) + " for a guarded insert"@,
        TxResult::Returning(rows) => if rows@.len() > 0 {
            r == Ok::<GuardedInsert, DatabaseError>(GuardedInsert::Inserted(rows@[0]))
        } else {
            match refused {
                Some(guard) => r == Ok::<GuardedInsert, DatabaseError>(
                    GuardedInsert::Refused { guard },
                ),
                None => r matches Err(DatabaseError::Internal(m)) && m@ == "guarded insert into "@
                    + table
                    + " wrote nothing, yet every guard held both before and after it: unguarded writes changed the table and changed it back"@,
            }
        },
    }
}

/// What a guarded insert into `table` did, from the write's own result and the
/// guard that refused it.
pub fn insert_outcome(table: &str, write: TxResult, refused: Option<usize>) -> (r: Result<
    GuardedInsert,
    DatabaseError,
>)
    ensures
        insert_says(table@, write, refused, r),
{
    match write {
        TxResult::Execute(n) => Err(
            DatabaseError::Internal(
                text::join3(
                    "run_transaction returned ",
                    show_tx(&TxResult::Execute(n)).as_str(),
                    " for a guarded insert",
                ),
            ),
        ),
        TxResult::Returning(rows) => {
            let mut rows = rows;
            if rows.len() > 0 {
                return Ok(GuardedInsert::Inserted(rows.swap_remove(0)));
            }
            match refused {
                Some(guard) => Ok(GuardedInsert::Refused { guard }),
                None => Err(
                    DatabaseError::Internal(
                        text::join3(
                            "guarded insert into ",
                            table,
                            " wrote nothing, yet every guard held both before and after it: unguarded writes changed the table and changed it back",
                        ),
                    ),
                ),
            }
        },
    }
}

/// What a guarded update did.
pub open spec fn update_says(
    write: TxResult,
    refused: Option<usize>,
    r: Result<GuardedUpdate, DatabaseError>,
) -> bool {
    match write {
        TxResult::Returning(_) => r matches Err(DatabaseError::Internal(m)) && m@
            == "run_transaction returned "@ + statement::tx_shown(write) + " for a guarded update"@,
        TxResult::Execute(rows_affected) => r == Ok::<GuardedUpdate, DatabaseError>(
            if rows_affected > 0 {
                GuardedUpdate::Updated { rows_affected }
            } else {
                match refused {
                    Some(guard) => GuardedUpdate::Refused { guard },
                    None => GuardedUpdate::NoMatch,
                }
            },
        ),
    }
}

/// What a guarded update did, from the write's own result and the guard that
/// refused it.
pub fn update_outcome(write: TxResult, refused: Option<usize>) -> (r: Result<
    GuardedUpdate,
    DatabaseError,
>)
    ensures
        update_says(write, refused, r),
{
    match write {
        TxResult::Returning(rows) => Err(
            DatabaseError::Internal(
                text::join3(
                    "run_transaction returned ",
                    show_tx(&TxResult::Returning(rows)).as_str(),
                    " for a guarded update",
                ),
            ),
        ),
        TxResult::Execute(rows_affected) => {
            if rows_affected > 0 {
                return Ok(GuardedUpdate::Updated { rows_affected });
            }
            match refused {
                Some(guard) => Ok(GuardedUpdate::Refused { guard }),
                None => Ok(GuardedUpdate::NoMatch),
            }
        },
    }
}

/// A probe that names a guard names the first that refuses: every guard before
/// it holds.
pub proof fn the_first_refusing_guard_is_named(
    rows: Vec<Record>,
    guards: int,
    r: Result<Option<usize>, DatabaseError>,
)
    requires
        probe_says(TxResult::Returning(rows), guards, r),
    ensures
        r matches Ok(Some(g)) ==> g < guards && verdict(rows@[0].data@, g as int) == Some(0i64) && (
        forall|k: int| 0 <= k < g ==> #[trigger] verdict(rows@[0].data@, k) == Some(1i64)),
        r matches Ok(None) ==> forall|k: int|
            0 <= k < guards ==> #[trigger] verdict(rows@[0].data@, k) == Some(1i64),
{
    if rows@.len() > 0 {
        lemma_not_held(rows@[0].data@, 0, guards);
    }
}

/// A probe gives the guard at `g` the verdict `v`: its first row holds that
/// number in the guard's own column.
pub open spec fn gives(probe: TxResult, g: int, v: i64) -> bool {
    &&& probe matches TxResult::Returning(rows)
    &&& rows@.len() > 0
    &&& rows@[0].data@.dom().contains(seq!['g'] + text::decimal(g))
    &&& rows@[0].data@[seq!['g'] + text::decimal(g)] == JsonView::Int(v)
}

/// A probe finds that every guard holds.
pub open spec fn all_hold(probe: TxResult, guards: int) -> bool {
    forall|g: int| 0 <= g < guards ==> #[trigger] gives(probe, g, 1)
}

/// A probe finds that the guard at `g` refuses, and that those before it hold.
pub open spec fn first_refuses(probe: TxResult, guards: int, g: int) -> bool {
    &&& 0 <= g < guards
    &&& gives(probe, g, 0)
    &&& forall|k: int| 0 <= k < g ==> #[trigger] gives(probe, k, 1)
}

proof fn lemma_probe(probe: TxResult, guards: int, r: Result<Option<usize>, DatabaseError>)
    requires
        guards > 0,
        probe_says(probe, guards, r),
    ensures
        r matches Ok(None) ==> all_hold(probe, guards),
        r matches Ok(Some(g)) ==> first_refuses(probe, guards, g as int),
        all_hold(probe, guards) ==> r == Ok::<Option<usize>, DatabaseError>(None),
        forall|g: int| #[trigger]
            first_refuses(probe, guards, g) ==> (r matches Ok(Some(f)) && f == g),
{
    if let TxResult::Returning(rows) = probe {
        if rows@.len() > 0 {
            let row = rows@[0].data@;
            lemma_not_held(row, 0, guards);
            assert forall|g: int, v: i64| #[trigger] gives(probe, g, v) == (verdict(row, g) == Some(
                v,
            )) by {}
            if let Some(f) = first_not_held(row, 0, guards) {
                if all_hold(probe, guards) {
                    assert(gives(probe, f, 1));
                }
                assert forall|g: int| #[trigger] first_refuses(probe, guards, g) implies (
                r matches Ok(Some(h)) && h == g) by {
                    if g < f {
                        assert(verdict(row, g) == Some(1i64));
                    } else if f < g {
                        assert(gives(probe, f, 1));
                    }
                    assert(gives(probe, g, 0));
                }
            } else {
                assert forall|g: int| #[trigger] first_refuses(probe, guards, g) implies false by {
                    assert(verdict(row, g) == Some(1i64));
                    assert(gives(probe, g, 0));
                }
            }
        } else {
            assert(!gives(probe, 0, 1));
            assert forall|g: int| #[trigger] first_refuses(probe, guards, g) implies false by {}
        }
    } else {
        assert(!gives(probe, 0, 1));
        assert forall|g: int| #[trigger] first_refuses(probe, guards, g) implies false by {}
    }
}

/// Where the results of the probes and of the write stand.
pub open spec fn own_result(results: Seq<TxResult>, guards: int, preamble: int) -> TxResult {
    if guards == 0 {
        results[preamble]
    } else {
        results[preamble + 1]
    }
}

/// The guard `g` is the one that refused: the probe before the write finds it
/// the first to refuse, or that probe finds that all hold and the probe after
/// the write finds it the first to refuse.
pub open spec fn refuses(results: Seq<TxResult>, guards: int, preamble: int, g: int) -> bool {
    guards > 0 && (first_refuses(results[preamble], guards, g) || (all_hold(
        results[preamble],
        guards,
    ) && first_refuses(results[preamble + 2], guards, g)))
}

/// No guard refused: there is none, or both probes find that all hold.
pub open spec fn none_refuses(results: Seq<TxResult>, guards: int, preamble: int) -> bool {
    guards == 0 || (all_hold(results[preamble], guards) && all_hold(results[preamble + 2], guards))
}

/// The results are as many as a guarded write has statements.
pub open spec fn complete(results: Seq<TxResult>, guards: int, preamble: int) -> bool {
    results.len() == preamble + if guards == 0 {
        1int
    } else {
        3
    }
}

proof fn lemma_guarded(
    results: Seq<TxResult>,
    guards: int,
    preamble: int,
    r: Result<(TxResult, Option<usize>), DatabaseError>,
)
    requires
        guards >= 0,
        preamble >= 0,
        guarded_says(results, guards, preamble, r),
    ensures
        r matches Ok(pair) ==> complete(results, guards, preamble) && pair.0 == own_result(
            results,
            guards,
            preamble,
        ),
        r matches Ok((_, Some(g))) ==> refuses(results, guards, preamble, g as int),
        r matches Ok((_, None)) ==> none_refuses(results, guards, preamble),
        complete(results, guards, preamble) && none_refuses(results, guards, preamble) ==> r is Ok
            && r->Ok_0.1 is None,
        forall|g: int|
            complete(results, guards, preamble) && #[trigger] refuses(results, guards, preamble, g)
                ==> (r matches Ok((_, Some(f))) && f == g),
{
    if guards > 0 && complete(results, guards, preamble) {
        let before = results[preamble];
        let after = results[preamble + 2];
        match r {
            Ok((_, Some(g))) => {
                if probe_says(before, guards, Ok(Some(g))) {
                    lemma_probe(before, guards, Ok(Some(g)));
                } else {
                    lemma_probe(before, guards, Ok(None));
                    lemma_probe(after, guards, Ok(Some(g)));
                }
            },
            Ok((_, None)) => {
                lemma_probe(before, guards, Ok(None));
                lemma_probe(after, guards, Ok(None));
            },
            Err(e) => {
                if probe_says(before, guards, Err(e)) {
                    lemma_probe(before, guards, Err(e));
                } else {
                    lemma_probe(before, guards, Ok(None));
                    lemma_probe(after, guards, Err(e));
                }
            },
        }
        assert forall|g: int| #[trigger] refuses(results, guards, preamble, g) implies (
        r matches Ok((_, Some(f))) && f == g) by {
            if first_refuses(before, guards, g) {
                if all_hold(before, guards) {
                    assert(gives(before, g, 1));
                }
            }
        }
    }
}

/// A guarded update tells what happened. It says that rows were updated exactly
/// where its write changed some, and how many. Otherwise it names the guard
/// that refused, which is one that a probe found to refuse, before the write
/// or, where all held then, after it; and where every guard held all along it
/// says that nothing matched.
pub proof fn a_guarded_update_tells_what_happened(
    results: Seq<TxResult>,
    guards: int,
    preamble: int,
    g: Result<(TxResult, Option<usize>), DatabaseError>,
    r: Result<GuardedUpdate, DatabaseError>,
)
    requires
        guards >= 0,
        preamble >= 0,
        guarded_says(results, guards, preamble, g),
        match g {
            Ok(pair) => update_says(pair.0, pair.1, r),
            Err(e) => r == Err::<GuardedUpdate, DatabaseError>(e),
        },
    ensures
        r is Ok ==> own_result(results, guards, preamble) is Execute,
        r matches Ok(GuardedUpdate::Updated { rows_affected }) ==> rows_affected > 0 && own_result(
            results,
            guards,
            preamble,
        ) == TxResult::Execute(rows_affected),
        r matches Ok(GuardedUpdate::Refused { guard }) ==> own_result(
            results,
            guards,
            preamble,
        )->Execute_0 <= 0 && refuses(results, guards, preamble, guard as int),
        r matches Ok(GuardedUpdate::NoMatch) ==> own_result(results, guards, preamble)->Execute_0
            <= 0 && none_refuses(results, guards, preamble),
        complete(results, guards, preamble) && own_result(results, guards, preamble) is Execute && (
        none_refuses(results, guards, preamble) || exists|k: int| #[trigger]
            refuses(results, guards, preamble, k)) ==> r is Ok,
        r is Ok && own_result(results, guards, preamble)->Execute_0 > 0 ==> r->Ok_0 is Updated,
{
    lemma_guarded(results, guards, preamble, g);
}

/// A guarded insert tells what happened. It gives the row back exactly where
/// its write returned one. Otherwise it names the guard that refused, found as
/// for an update; where every guard held all along yet nothing was written, it
/// fails.
pub proof fn a_guarded_insert_tells_what_happened(
    table: Seq<char>,
    results: Seq<TxResult>,
    guards: int,
    preamble: int,
    g: Result<(TxResult, Option<usize>), DatabaseError>,
    r: Result<GuardedInsert, DatabaseError>,
)
    requires
        guards >= 0,
        preamble >= 0,
        guarded_says(results, guards, preamble, g),
        match g {
            Ok(pair) => insert_says(table, pair.0, pair.1, r),
            Err(e) => r == Err::<GuardedInsert, DatabaseError>(e),
        },
    ensures
        r is Ok ==> own_result(results, guards, preamble) is Returning,
        r matches Ok(GuardedInsert::Inserted(record)) ==> own_result(
            results,
            guards,
            preamble,
        )->Returning_0@.len() > 0 && record == own_result(
            results,
            guards,
            preamble,
        )->Returning_0@[0],
        r matches Ok(GuardedInsert::Refused { guard }) ==> own_result(
            results,
            guards,
            preamble,
        )->Returning_0@.len() == 0 && refuses(results, guards, preamble, guard as int),
        complete(results, guards, preamble) && own_result(results, guards, preamble) is Returning
            && (none_refuses(results, guards, preamble) || exists|k: int| #[trigger]
            refuses(results, guards, preamble, k)) ==> (r is Ok <==> !(own_result(
            results,
            guards,
            preamble,
        )->Returning_0@.len() == 0 && none_refuses(results, guards, preamble))),
{
    lemma_guarded(results, guards, preamble, g);
    if none_refuses(results, guards, preamble) {
        assert forall|k: int| #[trigger] refuses(results, guards, preamble, k) implies false by {
            assert(gives(results[preamble], k, 1));
            assert(gives(results[preamble + 2], k, 1));
        }
    }
}

proof fn lemma_not_held(row: Map<Seq<char>, JsonView>, index: int, guards: int)
    requires
        0 <= index,
    ensures
        match first_not_held(row, index, guards) {
            Some(i) => index <= i < guards && verdict(row, i) != Some(1i64) && (forall|k: int|
                index <= k < i ==> #[trigger] verdict(row, k) == Some(1i64)),
            None => forall|k: int|
                index <= k < guards ==> #[trigger] verdict(row, k) == Some(1i64),
        },
    decreases guards - index,
{
    if index < guards && verdict(row, index) == Some(1i64) {
        lemma_not_held(row, index + 1, guards);
    }
}

} // verus!
