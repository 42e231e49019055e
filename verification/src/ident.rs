//! Plain identifiers: the only names of collections, columns and aliases that
//! are ever put into a statement.
//!
//! A name is used byte for byte or refused; nothing rewrites one.

use vstd::prelude::*;

use crate::error::{invalid, WaferError};
use crate::row::Row;
use crate::text;

verus! {

/// A lower-case ASCII letter, a digit or an underscore.
pub open spec fn is_plain_char(c: char) -> bool {
    ('a' <= c && c <= 'z') || ('0' <= c && c <= '9') || c == '_'
}

/// 1 to 63 lower-case ASCII letters, digits and underscores.
pub open spec fn plain(name: Seq<char>) -> bool {
    &&& 0 < name.len() <= 63
    &&& forall|i: int| 0 <= i < name.len() ==> is_plain_char(#[trigger] name[i])
}

/// Every column of the row has a plain name.
pub open spec fn row_plain(row: Row) -> bool {
    forall|k: Seq<char>| #[trigger] row@.dom().contains(k) ==> plain(k)
}

/// Whether `name` is a plain identifier.
pub fn is_plain_ident(name: &str) -> (r: bool)
    ensures
        r == plain(name@),
{
    let cs = text::chars_of(name);
    if cs.len() == 0 || cs.len() > 63 {
        return false;
    }
    for i in 0..cs.len()
        invariant
            cs@ == name@,
            0 < cs@.len() <= 63,
            forall|k: int| 0 <= k < i ==> is_plain_char(#[trigger] name@[k]),
    {
        let c = cs[i];
        if !(('a' <= c && c <= 'z') || ('0' <= c && c <= '9') || c == '_') {
            assert(!is_plain_char(name@[i as int]));
            return false;
        }
    }
    true
}

/// What is said of a name that is not a plain identifier.
pub open spec fn name_refusal(name: Seq<char>) -> Seq<char> {
    text::debug_rendering(name)
        + " is not a collection or column name (1 to 63 of: lowercase letters, digits and `_`)"@
}

/// The refusal of a name that is not a plain identifier.
pub open spec fn refuses_name(e: WaferError, name: Seq<char>) -> bool {
    e.says(crate::error::ErrorCode::InvalidArgument, name_refusal(name))
}

/// Admits `name` as the name of a collection, a column or an alias exactly
/// where it is a plain identifier.
pub fn check_name(name: &str) -> (r: Result<(), WaferError>)
    ensures
        match r {
            Ok(()) => plain(name@),
            Err(e) => !plain(name@) && refuses_name(e, name@),
        },
{
    if is_plain_ident(name) {
        return Ok(());
    }
    Err(
        invalid(
            text::join2(
                text::debug_text(name).as_str(),
                " is not a collection or column name (1 to 63 of: lowercase letters, digits and `_`)",
            ),
        ),
    )
}

/// Admits every name of `names`, or refuses the first that is not a plain
/// identifier.
pub fn check_names(names: &Vec<String>) -> (r: Result<(), WaferError>)
    ensures
        match r {
            Ok(()) => crate::database::exec::rows::first_bad_name(text::views(names@)) is None,
            Err(e) => crate::database::exec::rows::first_bad_name(text::views(names@)) is Some
                && refuses_name(
                e,
                crate::database::exec::rows::first_bad_name(text::views(names@))->0,
            ),
        },
{
    match crate::database::exec::rows::sql_names(names) {
        Ok(()) => Ok(()),
        Err(e) => Err(
            invalid(
                match e {
                    crate::database::service::DatabaseError::InvalidArgument(m) => m,
                    other => other.to_string(),
                },
            ),
        ),
    }
}

/// Admits every column name of `data`, the columns a write sets, or refuses
/// one that is not a plain identifier.
pub fn check_data_names(data: &Row) -> (r: Result<(), WaferError>)
    ensures
        match r {
            Ok(()) => row_plain(*data),
            Err(e) => exists|k: Seq<char>|
                #[trigger] data@.dom().contains(k) && !plain(k) && refuses_name(e, k),
        },
{
    let n: usize = data.len();
    proof {
        crate::row::lemma_entries_map(data.listed());
    }
    for i in 0..n
        invariant
            n == data.listed().len(),
            crate::row::distinct_names(data.listed()),
            data@ == crate::row::entries_map(data.listed()),
            forall|k: int| 0 <= k < i ==> plain((#[trigger] data.listed()[k]).0),
    {
        if let Err(e) = check_name(data.name_at(i)) {
            proof {
                crate::row::lemma_entries_map(data.listed());
                assert(data@.dom().contains(data.listed()[i as int].0));
            }
            return Err(e);
        }
    }
    Ok(())
}

/// A plain identifier is at most 63 characters long and the same in lower case;
/// it holds nothing that would need to be quoted in a statement or could end
/// one, and a longer or an empty one is none.
pub proof fn plain_names_need_no_quotes(name: Seq<char>, i: int)
    requires
        plain(name),
        0 <= i < name.len(),
    ensures
        1 <= name.len() <= 63,
        text::lower(name) == name,
        (name[i] as u32) < 128,
        name[i] != ' ' && name[i] != '.' && name[i] != ',' && name[i] != ';' && name[i] != '\''
            && name[i] != '"' && name[i] != '`' && name[i] != '(' && name[i] != ')' && name[i]
            != '-' && name[i] != '/' && name[i] != '*' && name[i] != '=',
{
    assert(is_plain_char(name[i]));
    assert forall|k: int| 0 <= k < name.len() implies text::lower(name)[k] == name[k] by {
        assert(is_plain_char(name[k]));
    }
    assert(text::lower(name) =~= name);
}

/// Every name made of lower-case letters, digits and underscores is plain, up to
/// 63 characters, and stays so where characters are left out.
pub proof fn plain_names_are_admitted(name: Seq<char>, from: int, to: int)
    requires
        plain(name),
        0 <= from < to <= name.len(),
    ensures
        plain(name.subrange(from, to)),
        plain(seq!['_']),
        plain(seq!['a', 'z', '0', '9']),
        name.len() < 63 ==> plain(name.push('q')) && plain(name.push('_')) && plain(name.push('5')),
{
    let part = name.subrange(from, to);
    assert forall|k: int| 0 <= k < part.len() implies is_plain_char(#[trigger] part[k]) by {
        assert(part[k] == name[from + k]);
    }
    if name.len() < 63 {
        assert forall|k: int| 0 <= k < name.len() + 1 implies is_plain_char(
            #[trigger] name.push('q')[k],
        ) && is_plain_char(name.push('_')[k]) && is_plain_char(name.push('5')[k]) by {
            if k < name.len() {
                assert(is_plain_char(name[k]));
            }
        }
        assert forall|k: int| 0 <= k < name.len() + 1 implies is_plain_char(
            #[trigger] name.push('_')[k],
        ) by {
            if k < name.len() {
                assert(is_plain_char(name[k]));
            }
        }
        assert forall|k: int| 0 <= k < name.len() + 1 implies is_plain_char(
            #[trigger] name.push('5')[k],
        ) by {
            if k < name.len() {
                assert(is_plain_char(name[k]));
            }
        }
    }
}

} // verus!
