//! The rules of an insert by a caller who may append to a collection and no
//! more.
//!
//! Such a caller sets none of the columns that the server fills, or a trail
//! could be back-dated by those who write it, and adds no column, which would
//! reshape the owner's table. A collection that lacks one of the server's own
//! columns refuses every such insert, as the server would have to add it.

use vstd::prelude::*;

use crate::error::{ErrorCode, WaferError};
use crate::ident;
use crate::ident::check_name;
use crate::row;
use crate::row::Row;
use crate::text;

verus! {

/// A column that the server fills on every insert.
pub open spec fn server_owned(name: Seq<char>) -> bool {
    name == "id"@ || name == "created_at"@ || name == "updated_at"@
}

/// The row names only plain columns, none of them the server's own.
pub open spec fn appendable(data: Row) -> bool {
    forall|k: Seq<char>| #[trigger] data@.dom().contains(k) ==> ident::plain(k) && !server_owned(k)
}

/// What is said of a column that the server assigns.
pub open spec fn assigned_refusal(collection: Seq<char>, name: Seq<char>) -> Seq<char> {
    "an append-only insert into `"@ + collection + "` cannot set `"@ + name
        + "`; the server assigns it"@
}

/// The refusal of a row that names a column it may not.
pub open spec fn refuses_row(e: WaferError, collection: Seq<char>, data: Row) -> bool {
    exists|k: Seq<char>| #[trigger]
        data@.dom().contains(k) && if !ident::plain(k) {
            ident::refuses_name(e, k)
        } else {
            server_owned(k) && e.says(
                ErrorCode::PermissionDenied,
                assigned_refusal(collection, k),
            )
        }
}

/// The refusal of rows: that of the first of them that is not appendable.
pub open spec fn refuses_rows(e: WaferError, collection: Seq<char>, rows: Seq<Row>) -> bool {
    exists|i: int|
        #![trigger rows[i]]
        0 <= i < rows.len() && refuses_row(e, collection, rows[i]) && forall|j: int|
            0 <= j < i ==> appendable(#[trigger] rows[j])
}

/// Every row is appendable.
pub open spec fn all_appendable(rows: Seq<Row>) -> bool {
    forall|i: int| 0 <= i < rows.len() ==> appendable(#[trigger] rows[i])
}

/// The first of the server's own columns that is not among `existing`.
pub open spec fn lacking_own(existing: Seq<Seq<char>>) -> Option<Seq<char>> {
    if !existing.contains("id"@) {
        Some("id"@)
    } else if !existing.contains("created_at"@) {
        Some("created_at"@)
    } else if !existing.contains("updated_at"@) {
        Some("updated_at"@)
    } else {
        None
    }
}

/// Every column the row names is among `existing`.
pub open spec fn has_columns_of(existing: Seq<Seq<char>>, data: Row) -> bool {
    forall|k: Seq<char>| #[trigger] data@.dom().contains(k) ==> existing.contains(k)
}

/// Every column the rows name, and every one of the server's own, is among
/// `existing`.
pub open spec fn has_all_columns(existing: Seq<Seq<char>>, rows: Seq<Row>) -> bool {
    lacking_own(existing) is None && forall|i: int|
        0 <= i < rows.len() ==> has_columns_of(existing, #[trigger] rows[i])
}

/// What is said of a column that an insert would have to add.
pub open spec fn lacking_refusal(collection: Seq<char>, name: Seq<char>) -> Seq<char> {
    "`"@ + collection + "` has no column `"@ + name + "`, and an append-only insert cannot add one"@
}

/// The refusal of rows that would add a column: one of the server's own comes
/// first, then a column of the first row that names one which is missing.
pub open spec fn refuses_columns(
    e: WaferError,
    collection: Seq<char>,
    existing: Seq<Seq<char>>,
    rows: Seq<Row>,
) -> bool {
    match lacking_own(existing) {
        Some(k) => e.says(ErrorCode::PermissionDenied, lacking_refusal(collection, k)),
        None => exists|i: int, k: Seq<char>|
            #![trigger rows[i]@.dom().contains(k)]
            0 <= i < rows.len() && rows[i]@.dom().contains(k) && !existing.contains(k) && e.says(
                ErrorCode::PermissionDenied,
                lacking_refusal(collection, k),
            ) && forall|j: int| 0 <= j < i ==> has_columns_of(existing, #[trigger] rows[j]),
    }
}

fn is_server_owned(name: &str) -> (r: bool)
    ensures
        r == server_owned(name@),
{
    text::same(name, "id") || text::same(name, "created_at") || text::same(name, "updated_at")
}

fn lists(existing: &Vec<String>, name: &str) -> (r: bool)
    ensures
        r == text::views(existing@).contains(name@),
{
    for i in 0..existing.len()
        invariant
            forall|k: int| 0 <= k < i ==> #[trigger] text::views(existing@)[k] != name@,
    {
        if text::same(existing[i].as_str(), name) {
            proof {
                assert(text::views(existing@)[i as int] == name@);
            }
            return true;
        }
    }
    false
}

fn check_append_row(collection: &str, data: &Row) -> (r: Result<(), WaferError>)
    ensures
        match r {
            Ok(()) => appendable(*data),
            Err(e) => !appendable(*data) && refuses_row(e, collection@, *data),
        },
{
    let n: usize = data.len();
    proof {
        row::lemma_entries_map(data.listed());
    }
    for i in 0..n
        invariant
            n == data.listed().len(),
            row::distinct_names(data.listed()),
            data@ == row::entries_map(data.listed()),
            forall|k: int|
                0 <= k < n ==> data@.dom().contains((#[trigger] data.listed()[k]).0),
            forall|k: int|
                0 <= k < i ==> ident::plain((#[trigger] data.listed()[k]).0) && !server_owned(
                    data.listed()[k].0,
                ),
    {
        let name = data.name_at(i);
        proof {
            assert(data@.dom().contains(data.listed()[i as int].0));
        }
        if let Err(e) = check_name(name) {
            return Err(e);
        }
        if is_server_owned(name) {
            let message = text::join5(
                "an append-only insert into `",
                collection,
                "` cannot set `",
                name,
                "`; the server assigns it",
            );
            return Err(WaferError::new(ErrorCode::PermissionDenied, message));
        }
    }
    Ok(())
}

/// The rows themselves.
pub open spec fn owned(rows: Seq<&Row>) -> Seq<Row> {
    rows.map_values(|r: &Row| *r)
}

/// Admits rows that name only columns an append-only insert may set.
pub fn check_append_rows(collection: &str, rows: &Vec<&Row>) -> (r: Result<(), WaferError>)
    ensures
        match r {
            Ok(()) => all_appendable(owned(rows@)),
            Err(e) => !all_appendable(owned(rows@)) && refuses_rows(
                e,
                collection@,
                owned(rows@),
            ),
        },
{
    let ghost all = owned(rows@);
    for i in 0..rows.len()
        invariant
            all == owned(rows@),
            forall|k: int| 0 <= k < i ==> appendable(#[trigger] all[k]),
    {
        if let Err(e) = check_append_row(collection, rows[i]) {
            proof {
                assert(refuses_row(e, collection@, all[i as int]));
                assert(!appendable(all[i as int]));
            }
            return Err(e);
        }
        proof {
            assert(appendable(all[i as int]));
        }
    }
    Ok(())
}

fn lacks(collection: &str, name: &str) -> (r: WaferError)
    ensures
        r.says(ErrorCode::PermissionDenied, lacking_refusal(collection@, name@)),
{
    WaferError::new(
        ErrorCode::PermissionDenied,
        text::join5(
            "`",
            collection,
            "` has no column `",
            name,
            "`, and an append-only insert cannot add one",
        ),
    )
}

/// Admits rows whose columns, and the server's own, are all among `existing`,
/// the columns the collection has.
pub fn check_append_columns(
    collection: &str,
    existing: &Vec<String>,
    rows: &Vec<&Row>,
) -> (r: Result<(), WaferError>)
    ensures
        match r {
            Ok(()) => has_all_columns(text::views(existing@), owned(rows@)),
            Err(e) => !has_all_columns(text::views(existing@), owned(rows@)) && refuses_columns(
                e,
                collection@,
                text::views(existing@),
                owned(rows@),
            ),
        },
{
    if !lists(existing, "id") {
        return Err(lacks(collection, "id"));
    }
    if !lists(existing, "created_at") {
        return Err(lacks(collection, "created_at"));
    }
    if !lists(existing, "updated_at") {
        return Err(lacks(collection, "updated_at"));
    }
    let ghost all = owned(rows@);
    let ghost have = text::views(existing@);
    for i in 0..rows.len()
        invariant
            all == owned(rows@),
            have == text::views(existing@),
            lacking_own(have) is None,
            forall|k: int| 0 <= k < i ==> has_columns_of(have, #[trigger] all[k]),
    {
        let data: &Row = rows[i];
        let n: usize = data.len();
        proof {
            row::lemma_entries_map(data.listed());
            assert(all[i as int] == *data);
        }
        for j in 0..n
            invariant
                all == owned(rows@),
                have == text::views(existing@),
                lacking_own(have) is None,
                i < rows@.len(),
                all[i as int] == *data,
                n == data.listed().len(),
                forall|k: int| 0 <= k < i ==> has_columns_of(have, #[trigger] all[k]),
                forall|k: int|
                    0 <= k < n ==> data@.dom().contains((#[trigger] data.listed()[k]).0),
                forall|k: int| 0 <= k < j ==> have.contains((#[trigger] data.listed()[k]).0),
        {
            let name = data.name_at(j);
            if !lists(existing, name) {
                proof {
                    let k = data.listed()[j as int].0;
                    assert(all[i as int]@.dom().contains(k));
                    assert(!has_columns_of(have, all[i as int]));
                }
                return Err(lacks(collection, name));
            }
        }
        proof {
            assert(has_columns_of(have, all[i as int]));
        }
    }
    Ok(())
}

/// An insert that is admitted by these rules sets no column that the server
/// fills and adds none to the table.
pub proof fn admitted_appends_change_no_shape(
    data: Row,
    rows: Seq<Row>,
    existing: Seq<Seq<char>>,
    name: Seq<char>,
)
    requires
        rows.contains(data),
        all_appendable(rows),
        has_all_columns(existing, rows),
        data@.dom().contains(name) || server_owned(name),
    ensures
        existing.contains(name),
        data@.dom().contains(name) ==> ident::plain(name) && !server_owned(name),
{
    let i = choose|i: int| 0 <= i < rows.len() && rows[i] == data;
    assert(appendable(rows[i]));
    assert(has_columns_of(existing, rows[i]));
}

} // verus!
