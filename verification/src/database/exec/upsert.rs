//! The statement of an upsert.

use vstd::prelude::*;

use crate::database::exec::rows;
use crate::database::exec::rows::sql_names;
use crate::database::exec::statement::Statement;
use crate::database::service::{DatabaseError, UpsertConflict, UpsertSpec};
use crate::json;
use crate::json::{Json, JsonView};
use crate::text;

verus! {

/// Where the first entry of the name `name` stands, from `from` on.
pub open spec fn entry_at(
    data: Seq<(Seq<char>, JsonView)>,
    name: Seq<char>,
    from: int,
) -> Option<int>
    decreases data.len() - from,
{
    if from < 0 || from >= data.len() {
        None
    } else if data[from].0 == name {
        Some(from)
    } else {
        entry_at(data, name, from + 1)
    }
}

/// The text of the first entry of the name `name`, where it is a text.
pub open spec fn entry_text(
    data: Seq<(Seq<char>, JsonView)>,
    name: Seq<char>,
) -> Option<Seq<char>> {
    match entry_at(data, name, 0) {
        Some(i) => match data[i].1 {
            JsonView::Str(s) => Some(s),
            _ => None,
        },
        None => None,
    }
}

/// The first entry, from `from` on, that is neither that of the key `id` nor
/// that of the conflict column.
pub open spec fn stray_at(
    data: Seq<(Seq<char>, JsonView)>,
    column: Seq<char>,
    from: int,
) -> Option<int>
    decreases data.len() - from,
{
    if from < 0 || from >= data.len() {
        None
    } else if entry_at(data, "id"@, 0) != Some(from) && entry_at(data, column, 0) != Some(from) {
        Some(from)
    } else {
        stray_at(data, column, from + 1)
    }
}

/// Why the row of a windowed counter is refused: it needs one conflict column,
/// a text for `id` and for that column, and nothing that the statement would
/// not write.
pub open spec fn windowed_refusal(
    data: Seq<(Seq<char>, JsonView)>,
    conflict: Seq<Seq<char>>,
) -> Option<Seq<char>> {
    if conflict.len() != 1 {
        Some(
            "windowed-counter upsert requires exactly one conflict column, not "@ + text::decimal(
                conflict.len() as int,
            ),
        )
    } else if entry_text(data, "id"@) is None {
        Some("windowed-counter upsert requires a string `id` value in data"@)
    } else if entry_text(data, conflict[0]) is None {
        Some("windowed-counter upsert requires a string `"@ + conflict[0] + "` value in data"@)
    } else {
        match stray_at(data, conflict[0], 0) {
            Some(i) => Some("windowed-counter upsert does not write `"@ + data[i].0 + "`"@),
            None => None,
        }
    }
}

fn find_entry(data: &Vec<(String, Json)>, name: &str) -> (r: Option<usize>)
    ensures
        match r {
            Some(i) => i < data@.len() && entry_at(json::entry_views(data@), name@, 0) == Some(
                i as int,
            ),
            None => entry_at(json::entry_views(data@), name@, 0) is None,
        },
{
    let ghost views = json::entry_views(data@);
    let mut i: usize = 0;
    while i < data.len()
        invariant
            views == json::entry_views(data@),
            i <= data@.len(),
            entry_at(views, name@, 0) == entry_at(views, name@, i as int),
        decreases data@.len() - i,
    {
        assert(views[i as int].0 == data@[i as int].0@);
        if text::same(data[i].0.as_str(), name) {
            return Some(i);
        }
        i += 1;
    }
    None
}

/// The key and the conflict column's value of a windowed counter's row,
/// refusing a row that the statement would not write whole.
pub fn windowed_counter_row(
    data: &Vec<(String, Json)>,
    conflict_columns: &Vec<String>,
) -> (r: Result<(String, String), DatabaseError>)
    ensures
        ({
            let views = json::entry_views(data@);
            let refusal = windowed_refusal(views, text::views(conflict_columns@));
            match r {
                Ok((id, key)) => refusal is None && entry_text(views, "id"@) == Some(id@)
                    && entry_text(views, conflict_columns@[0]@) == Some(key@),
                Err(e) => refusal is Some && (e matches DatabaseError::InvalidArgument(m) && m@
                    == refusal->0),
            }
        }),
{
    let ghost views = json::entry_views(data@);
    if conflict_columns.len() != 1 {
        return Err(
            DatabaseError::InvalidArgument(
                text::join2(
                    "windowed-counter upsert requires exactly one conflict column, not ",
                    text::usize_text(conflict_columns.len()).as_str(),
                ),
            ),
        );
    }
    let column = conflict_columns[0].as_str();
    let id_at = find_entry(data, "id");
    let id = match id_at {
        Some(i) => {
            assert(views[i as int].1 == data@[i as int].1@);
            data[i].1.as_str()
        },
        None => None,
    };
    let id: String = match id {
        Some(s) => s.to_owned(),
        None => {
            return Err(
                DatabaseError::InvalidArgument(
                    "windowed-counter upsert requires a string `id` value in data".to_owned(),
                ),
            );
        },
    };
    let key_at = find_entry(data, column);
    let key = match key_at {
        Some(i) => {
            assert(views[i as int].1 == data@[i as int].1@);
            data[i].1.as_str()
        },
        None => None,
    };
    let key: String = match key {
        Some(s) => s.to_owned(),
        None => {
            return Err(
                DatabaseError::InvalidArgument(
                    text::join3(
                        "windowed-counter upsert requires a string `",
                        column,
                        "` value in data",
                    ),
                ),
            );
        },
    };
    let mut i: usize = 0;
    while i < data.len()
        invariant
            views == json::entry_views(data@),
            i <= data@.len(),
            conflict_columns@.len() == 1,
            column@ == conflict_columns@[0]@,
            id_at is Some,
            key_at is Some,
            entry_at(views, "id"@, 0) == Some(id_at->0 as int),
            entry_at(views, column@, 0) == Some(key_at->0 as int),
            entry_text(views, "id"@) is Some,
            entry_text(views, column@) is Some,
            stray_at(views, column@, 0) == stray_at(views, column@, i as int),
        decreases data@.len() - i,
    {
        let is_id = match id_at {
            Some(at) => at == i,
            None => false,
        };
        let is_key = match key_at {
            Some(at) => at == i,
            None => false,
        };
        if !is_id && !is_key {
            assert(views[i as int].0 == data@[i as int].0@);
            return Err(
                DatabaseError::InvalidArgument(
                    text::join3(
                        "windowed-counter upsert does not write `",
                        data[i].0.as_str(),
                        "`",
                    ),
                ),
            );
        }
        i += 1;
    }
    Ok((id, key))
}

/// Every column an upsert names, in the order in which they are looked at: the
/// row's, the conflict columns, and those that resolve a conflict.
pub open spec fn upsert_names(upsert: UpsertSpec) -> Seq<Seq<char>> {
    row_names(upsert.data@) + text::views(upsert.conflict_columns@) + conflict_names(
        upsert.on_conflict,
    )
}

/// The names of a list of columns with values.
pub open spec fn row_names(data: Seq<(String, Json)>) -> Seq<Seq<char>> {
    data.map_values(|e: (String, Json)| e.0@)
}

/// The columns that resolve a conflict.
pub open spec fn conflict_names(c: UpsertConflict) -> Seq<Seq<char>> {
    match c {
        UpsertConflict::SetColumns(columns) => text::views(columns@),
        UpsertConflict::WindowedCounter {
            count_field,
            window_field,
            created_fields,
            updated_fields,
            ..
        } => seq![count_field@, window_field@] + text::views(created_fields@) + text::views(
            updated_fields@,
        ),
    }
}

/// Appends the names `more`.
pub fn push_names(more: &Vec<String>, out: &mut Vec<String>)
    ensures
        text::views(final(out)@) == text::views(old(out)@) + text::views(more@),
{
    let ghost start = text::views(out@);
    for i in 0..more.len()
        invariant
            start == text::views(old(out)@),
            text::views(out@) == start + text::views(more@).take(i as int),
    {
        let ghost before = text::views(out@);
        out.push(more[i].clone());
        proof {
            assert(text::views(out@) =~= before.push(more@[i as int]@));
            assert(text::views(out@) =~= start + text::views(more@).take(i + 1));
        }
    }
    proof {
        assert(text::views(more@).take(more@.len() as int) =~= text::views(more@));
    }
}

/// Appends the names of a list of columns with values.
pub fn push_row_names(data: &Vec<(String, Json)>, out: &mut Vec<String>)
    ensures
        text::views(final(out)@) == text::views(old(out)@) + row_names(data@),
{
    let ghost start = text::views(out@);
    for i in 0..data.len()
        invariant
            start == text::views(old(out)@),
            text::views(out@) == start + row_names(data@).take(i as int),
    {
        let ghost before = text::views(out@);
        out.push(data[i].0.clone());
        proof {
            assert(text::views(out@) =~= before.push(data@[i as int].0@));
            assert(text::views(out@) =~= start + row_names(data@).take(i + 1));
        }
    }
    proof {
        assert(row_names(data@).take(data@.len() as int) =~= row_names(data@));
    }
}

/// Every column an upsert names, in the order in which they are looked at.
pub fn list_upsert_names(upsert: &UpsertSpec) -> (r: Vec<String>)
    ensures
        text::views(r@) == upsert_names(*upsert),
{
    let mut names: Vec<String> = Vec::new();
    push_row_names(&upsert.data, &mut names);
    push_names(&upsert.conflict_columns, &mut names);
    match &upsert.on_conflict {
        UpsertConflict::SetColumns(columns) => push_names(columns, &mut names),
        UpsertConflict::WindowedCounter {
            count_field,
            window_field,
            created_fields,
            updated_fields,
            ..
        } => {
            let ghost before = text::views(names@);
            names.push(count_field.clone());
            names.push(window_field.clone());
            proof {
                assert(text::views(names@) =~= before + seq![count_field@, window_field@]);
            }
            push_names(created_fields, &mut names);
            push_names(updated_fields, &mut names);
        },
    }
    proof {
        assert(text::views(names@) =~= upsert_names(*upsert));
    }
    names
}

/// The statement of an upsert, or why there is none.
pub open spec fn upsert_renders(
    collection: String,
    upsert: UpsertSpec,
    r: Result<Statement, DatabaseError>,
) -> bool {
    match rows::first_bad_name(seq![collection@] + upsert_names(upsert)) {
        Some(bad) => r matches Err(e) && rows::refuses_sql_name(e, bad),
        None => match upsert.on_conflict {
            UpsertConflict::SetColumns(update) => r == Ok::<Statement, DatabaseError>(
                Statement::Upsert {
                    table: collection,
                    data: upsert.data,
                    conflict: upsert.conflict_columns,
                    update,
                },
            ),
            UpsertConflict::WindowedCounter {
                count_field,
                window_field,
                now,
                window_cutoff,
                created_fields,
                updated_fields,
            } => {
                let data = json::entry_views(upsert.data@);
                match windowed_refusal(data, text::views(upsert.conflict_columns@)) {
                    Some(m) => r matches Err(DatabaseError::InvalidArgument(n)) && n@ == m,
                    None => {
                        &&& r matches Ok(Statement::WindowedCounter {
                            table: t,
                            conflict_column: cc,
                            id,
                            key,
                            count_field: cf,
                            window_field: wf,
                            created_fields: cr,
                            updated_fields: up,
                            now: n,
                            window_cutoff: w,
                        })
                        &&& t == collection
                        &&& cc@ == upsert.conflict_columns@[0]@
                        &&& entry_text(data, "id"@) == Some(id@)
                        &&& entry_text(data, cc@) == Some(key@)
                        &&& cf == count_field
                        &&& wf == window_field
                        &&& cr == created_fields
                        &&& up == updated_fields
                        &&& n == now
                        &&& w == window_cutoff
                    },
                }
            },
        },
    }
}

/// The single statement of an upsert. Every name in it is a plain identifier.
pub fn upsert_statement(collection: String, upsert: UpsertSpec) -> (r: Result<
    Statement,
    DatabaseError,
>)
    ensures
        upsert_renders(collection, upsert, r),
{
    let mut names: Vec<String> = Vec::new();
    names.push(collection.clone());
    let ghost first = text::views(names@);
    proof {
        assert(first =~= seq![collection@]);
    }
    let more = list_upsert_names(&upsert);
    push_names(&more, &mut names);
    if let Err(e) = sql_names(&names) {
        return Err(e);
    }
    match upsert.on_conflict {
        UpsertConflict::SetColumns(update) => Ok(
            Statement::Upsert {
                table: collection,
                data: upsert.data,
                conflict: upsert.conflict_columns,
                update,
            },
        ),
        UpsertConflict::WindowedCounter {
            count_field,
            window_field,
            now,
            window_cutoff,
            created_fields,
            updated_fields,
        } => {
            let (id, key) = match windowed_counter_row(&upsert.data, &upsert.conflict_columns) {
                Ok(pair) => pair,
                Err(e) => return Err(e),
            };
            let conflict_column = upsert.conflict_columns[0].clone();
            Ok(
                Statement::WindowedCounter {
                    table: collection,
                    conflict_column,
                    id,
                    key,
                    count_field,
                    window_field,
                    created_fields,
                    updated_fields,
                    now,
                    window_cutoff,
                },
            )
        },
    }
}

} // verus!
