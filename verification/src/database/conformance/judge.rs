//! What an answer must be like, and what is kept of it.

use vstd::prelude::*;

use crate::database::conformance::ask;
use crate::database::conformance::ask::{to_json, Kept};
use crate::database::conformance::list::List;
use crate::database::conformance::probe::Datum;
use crate::database::exec::ops::Outcome;
use crate::database::service::{
    DatabaseError, GuardedInsert, GuardedUpdate, Record, WriteOutcome,
};
use crate::double;
use crate::double::{is_near, Double, Within};
use crate::json;
use crate::json::{Json, JsonView};
use crate::row;
use crate::row::Row;
use crate::text;
use crate::text::{clone_strings, i64_text, join3};

verus! {

// ---------------------------------------------------------------------------
// Answers and expectations
// ---------------------------------------------------------------------------

/// What a service answered; a real number comes in its shortest decimal form.
#[derive(Debug)]
pub enum Answer {
    Operation(Outcome<Double>),
    Batch(Vec<WriteOutcome>),
    Exists(bool),
    Columns(Vec<String>),
    /// A change to the schema, or to a setting, was made.
    Changed,
    Race(Vec<Result<GuardedInsert, DatabaseError>>),
    Time(String),
}

/// How a call must fail.
#[derive(Clone, Copy, Debug, PartialEq, Eq, Structural)]
pub enum Fault {
    NotFound,
    AlreadyExists,
    InvalidArgument,
    /// In any way.
    Any,
}

/// What a column of a record must be like.
#[derive(Debug)]
pub enum FieldCheck {
    Is(Datum),
    IsNot(Datum),
    Int(i64),
    /// Some integer.
    Integer,
    /// Some text.
    Text,
    /// A number close to so many, and a half more where it is said so.
    Near { whole: u32, half: bool, within: Within },
    /// An RFC 3339 timestamp.
    Stamp,
    /// What the other column is.
    SameAs(&'static str),
    Present,
    Absent,
    /// Where it is text, text that starts so.
    Starts(&'static str),
    /// The integer that the text kept under this name spells.
    SpellsKept(&'static str),
}

/// What a record must be like.
#[derive(Debug)]
pub enum RecordCheck {
    Id(&'static str),
    /// Some id.
    SomeId,
    /// The id spells the integer in this column.
    IdSpells(&'static str),
    IdKept(&'static str),
    IdNotKept(&'static str),
    /// The columns are those that were kept.
    DataKept,
    Field(&'static str, FieldCheck),
}

/// What a list of records must be like.
#[derive(Debug)]
pub enum ListCheck {
    Len(usize),
    /// The records over all pages.
    Total(i64),
    /// The keys of the records, in order; a key of several columns is joined
    /// with slashes.
    Keys { columns: List<&'static str>, values: List<&'static str> },
    Ints { column: &'static str, numbers: List<i64> },
    Ids(List<&'static str>),
    /// These ids, which are distinct, in any order.
    IdsInAnyOrder(List<&'static str>),
    /// So many different integers.
    DistinctInts { column: &'static str, count: usize },
    At(usize, List<RecordCheck>),
    /// The keys of all pages, this one last.
    Gathered { columns: List<&'static str>, values: List<&'static str> },
    /// So many keys on all pages, this one last, none of them twice.
    GatheredDistinct { columns: List<&'static str>, count: usize },
}

/// What a write of a batch must have done.
#[derive(Debug)]
pub enum Effect {
    Created(List<RecordCheck>),
    Updated(List<RecordCheck>),
    NotUpdated,
    Deleted(i64),
    UpdatedWhere(i64),
    DeletedWhere(i64),
    Upserted(i64),
}

/// What is kept of a record.
#[derive(Clone, Copy, Debug)]
pub enum Keep {
    Nothing,
    /// Its id, under this name.
    Id(&'static str),
    /// Its columns.
    Data,
}

/// What is kept of a page.
#[derive(Debug)]
pub enum Gather {
    Nothing,
    /// Its keys, as those of the first page.
    First(List<&'static str>),
    /// Its keys, after those of the pages before it.
    Next(List<&'static str>),
}

/// What an answer must be like.
#[derive(Debug)]
pub enum Expect {
    /// Not a failure.
    Done,
    Fails(Fault),
    Count(i64),
    /// Some count, which is kept under this name.
    KeepCount(&'static str),
    CountKept(&'static str),
    SumNear { whole: u32, within: Within },
    Exists(bool),
    /// These columns, and maybe others.
    Columns(List<&'static str>),
    NoColumns,
    /// Some columns, which are kept.
    KeepColumns,
    ColumnsKept,
    Record { checks: List<RecordCheck>, keep: Keep },
    Records { checks: List<ListCheck>, gather: Gather },
    /// So many effects, these among them; the id of one may be kept.
    Effects {
        count: Option<usize>,
        effects: List<(usize, Effect)>,
        keep_id: Option<(usize, &'static str)>,
    },
    Inserted(List<RecordCheck>),
    InsertRefused(usize),
    Updated(i64),
    UpdateRefused(usize),
    NoMatch,
    /// Exactly so many of the racing inserts were admitted, and none failed.
    Admitted(usize),
    /// The time, which is kept under this name.
    KeepTime(&'static str),
}

// ---------------------------------------------------------------------------
// Columns
// ---------------------------------------------------------------------------

/// Whether `chrono` reads a text as an RFC 3339 timestamp.
pub uninterp spec fn reads_as_rfc3339(s: Seq<char>) -> bool;

/// `chrono::DateTime::parse_from_rfc3339` reads a text as a timestamp, or does
/// not. Which texts it reads is named, not spelled out.
#[verifier::external_body]
fn is_rfc3339(s: &str) -> (r: bool)
    ensures
        r == reads_as_rfc3339(s@),
{
    chrono::DateTime::parse_from_rfc3339(s).is_ok()
}

/// So many, in halves, and one half more where it is said so.
pub open spec fn halves_of(whole: u32, half: bool) -> u64 {
    (whole * 2 + if half {
        1int
    } else {
        0
    }) as u64
}

/// The value is a number that is close to so many halves. An integer is close
/// only to itself.
pub open spec fn is_close(v: JsonView, halves: u64, within: Within) -> bool {
    match v {
        JsonView::Int(i) => i * 2 == halves,
        JsonView::Real(n) => double::near(n.bits, halves, within),
        _ => false,
    }
}

/// The column `name` of a row, where it has one.
pub open spec fn cell(data: Map<Seq<char>, JsonView>, name: Seq<char>) -> Option<JsonView> {
    if data.dom().contains(name) {
        Some(data[name])
    } else {
        None
    }
}

/// `s` starts with `prefix`.
pub open spec fn starts(s: Seq<char>, prefix: Seq<char>) -> bool {
    prefix.len() <= s.len() && s.take(prefix.len() as int) == prefix
}

/// The column is as it must be.
pub open spec fn field_meets(
    check: FieldCheck,
    data: Map<Seq<char>, JsonView>,
    name: Seq<char>,
    kept: Kept,
) -> bool {
    match (check, cell(data, name)) {
        (FieldCheck::Absent, found) => found is None,
        (FieldCheck::Starts(prefix), found) => found matches Some(JsonView::Str(s)) ==> starts(
            s,
            prefix@,
        ),
        (_, None) => false,
        (FieldCheck::Present, Some(_)) => true,
        (FieldCheck::Is(d), Some(v)) => json::json_equal(v, ask::datum_view(d)),
        (FieldCheck::IsNot(d), Some(v)) => !json::json_equal(v, ask::datum_view(d)),
        (FieldCheck::Int(i), Some(v)) => v.signed() == Some(i),
        (FieldCheck::Integer, Some(v)) => v.signed() is Some,
        (FieldCheck::Text, Some(v)) => v is Str,
        (FieldCheck::Near { whole, half, within }, Some(v)) => is_close(
            v,
            halves_of(whole, half),
            within,
        ),
        (FieldCheck::Stamp, Some(v)) => v matches JsonView::Str(s) && reads_as_rfc3339(s),
        (FieldCheck::SameAs(other), Some(v)) => cell(data, other@) matches Some(w)
            && json::json_equal(v, w),
        (FieldCheck::SpellsKept(at), Some(v)) => v.signed() matches Some(i) && kept.text(at@)
            == Some(text::decimal(i as int)),
    }
}

fn count_halves(whole: u32, half: bool) -> (r: u64)
    ensures
        r == halves_of(whole, half),
{
    whole as u64 * 2 + if half {
        1
    } else {
        0
    }
}

fn check_close(v: &Json, halves: u64, within: Within) -> (r: bool)
    ensures
        r == is_close(v@, halves, within),
{
    match v {
        Json::Int(i) => *i >= 0 && *i as u128 * 2 == halves as u128,
        Json::Real(n) => is_near(n.bits, halves, within),
        _ => false,
    }
}

fn starts_with(s: &str, prefix: &str) -> (r: bool)
    ensures
        r == starts(s@, prefix@),
{
    let a = text::chars_of(s);
    let b = text::chars_of(prefix);
    if b.len() > a.len() {
        return false;
    }
    for i in 0..b.len()
        invariant
            a@ == s@,
            b@ == prefix@,
            b@.len() <= a@.len(),
            forall|k: int| 0 <= k < i ==> #[trigger] a@[k] == b@[k],
    {
        if a[i] != b[i] {
            proof {
                assert(s@.take(prefix@.len() as int)[i as int] != prefix@[i as int]);
            }
            return false;
        }
    }
    proof {
        assert(s@.take(prefix@.len() as int) =~= prefix@);
    }
    true
}

/// Whether the column is as it must be.
fn check_field(check: &FieldCheck, data: &Row, name: &str, kept: &Kept) -> (r: bool)
    ensures
        r == field_meets(*check, data@, name@, *kept),
{
    let value = match data.get(name) {
        Some(value) => value,
        None => {
            return matches!(check, FieldCheck::Absent | FieldCheck::Starts(_));
        },
    };
    match check {
        FieldCheck::Absent => false,
        FieldCheck::Starts(prefix) => match value.as_str() {
            Some(s) => starts_with(s, prefix),
            None => true,
        },
        FieldCheck::Present => true,
        FieldCheck::Is(d) => value.same(&to_json(d)),
        FieldCheck::IsNot(d) => !value.same(&to_json(d)),
        FieldCheck::Int(i) => match value.as_i64() {
            Some(n) => n == *i,
            None => false,
        },
        FieldCheck::Integer => value.as_i64().is_some(),
        FieldCheck::Text => value.as_str().is_some(),
        FieldCheck::Near { whole, half, within } => check_close(
            value,
            count_halves(*whole, *half),
            *within,
        ),
        FieldCheck::Stamp => match value.as_str() {
            Some(s) => is_rfc3339(s),
            None => false,
        },
        FieldCheck::SameAs(other) => match data.get(other) {
            Some(found) => value.same(found),
            None => false,
        },
        FieldCheck::SpellsKept(at) => match (value.as_i64(), kept.get_text(at)) {
            (Some(i), Some(s)) => text::same(s, &i64_text(i)),
            _ => false,
        },
    }
}

// ---------------------------------------------------------------------------
// Records
// ---------------------------------------------------------------------------

/// The record is as it must be.
pub open spec fn record_meets(check: RecordCheck, record: Record, kept: Kept) -> bool {
    match check {
        RecordCheck::Id(id) => record.id@ == id@,
        RecordCheck::SomeId => record.id@.len() > 0,
        RecordCheck::IdSpells(column) => cell(record.data@, column@) matches Some(v)
            && v.signed() matches Some(i) && record.id@ == text::decimal(i as int),
        RecordCheck::IdKept(at) => kept.text(at@) == Some(record.id@),
        RecordCheck::IdNotKept(at) => kept.text(at@) matches Some(s) && s != record.id@,
        RecordCheck::DataKept => kept.data matches Some(data) && row::row_equal(
            data@,
            record.data@,
        ),
        RecordCheck::Field(name, field) => field_meets(field, record.data@, name@, kept),
    }
}

/// The record is as it must be, in every respect.
pub open spec fn record_meets_all(checks: List<RecordCheck>, record: Record, kept: Kept) -> bool
    decreases checks,
{
    match checks {
        List::Nil => true,
        List::More(rest, check) => record_meets_all(*rest, record, kept) && record_meets(
            check,
            record,
            kept,
        ),
    }
}

fn check_record(checks: &List<RecordCheck>, record: &Record, kept: &Kept) -> (r: bool)
    ensures
        r == record_meets_all(*checks, *record, *kept),
    decreases *checks,
{
    match checks {
        List::Nil => true,
        List::More(rest, check) => check_record(rest, record, kept) && match check {
            RecordCheck::Id(id) => text::same(&record.id, id),
            RecordCheck::SomeId => record.id.as_str().unicode_len() > 0,
            RecordCheck::IdSpells(column) => match record.data.get(column) {
                Some(value) => match value.as_i64() {
                    Some(i) => text::same(&record.id, &i64_text(i)),
                    None => false,
                },
                None => false,
            },
            RecordCheck::IdKept(at) => match kept.get_text(at) {
                Some(s) => text::same(s, &record.id),
                None => false,
            },
            RecordCheck::IdNotKept(at) => match kept.get_text(at) {
                Some(s) => !text::same(s, &record.id),
                None => false,
            },
            RecordCheck::DataKept => match &kept.data {
                Some(data) => data.same(&record.data),
                None => false,
            },
            RecordCheck::Field(name, field) => check_field(field, &record.data, name, kept),
        },
    }
}

// ---------------------------------------------------------------------------
// Lists of records
// ---------------------------------------------------------------------------

/// The key of a row: its texts in these columns, joined with slashes.
pub open spec fn key_of(data: Map<Seq<char>, JsonView>, columns: List<&'static str>) -> Option<
    Seq<char>,
>
    decreases columns,
{
    match columns {
        List::Nil => Some(Seq::empty()),
        List::More(rest, column) => match (key_of(data, *rest), cell(data, column@)) {
            (Some(key), Some(JsonView::Str(s))) => if *rest is Nil {
                Some(s)
            } else {
                Some(key + "/"@ + s)
            },
            _ => None,
        },
    }
}

/// The keys of records, in order, where each has one.
pub open spec fn keys_of(records: Seq<Record>, columns: List<&'static str>) -> Option<
    Seq<Seq<char>>,
>
    decreases records.len(),
{
    if records.len() == 0 {
        Some(Seq::empty())
    } else {
        match (keys_of(records.drop_last(), columns), key_of(records.last().data@, columns)) {
            (Some(keys), Some(key)) => Some(keys.push(key)),
            _ => None,
        }
    }
}

/// The integers in a column of records, in order, where each has one.
pub open spec fn ints_of(records: Seq<Record>, column: Seq<char>) -> Option<Seq<i64>>
    decreases records.len(),
{
    if records.len() == 0 {
        Some(Seq::empty())
    } else {
        match (ints_of(records.drop_last(), column), cell(records.last().data@, column)) {
            (Some(ints), Some(JsonView::Int(i))) => Some(ints.push(i)),
            _ => None,
        }
    }
}

/// The ids of records, in order.
pub open spec fn ids_of(records: Seq<Record>) -> Seq<Seq<char>> {
    records.map_values(|r: Record| r.id@)
}

/// The integers of a list, in order.
pub open spec fn int_items(l: List<i64>) -> Seq<i64> {
    crate::database::conformance::list::items(l)
}

/// How many different items there are.
pub open spec fn distinct<T>(s: Seq<T>) -> nat
    decreases s.len(),
{
    if s.len() == 0 {
        0
    } else {
        let before = s.drop_last();
        distinct(before) + if before.contains(s.last()) {
            0nat
        } else {
            1nat
        }
    }
}

/// The records are as they must be; `total` is how many there are over all
/// pages, where that is told.
pub open spec fn list_meets(
    check: ListCheck,
    records: Seq<Record>,
    total: Option<i64>,
    kept: Kept,
) -> bool {
    match check {
        ListCheck::Len(n) => records.len() == n,
        ListCheck::Total(n) => total == Some(n),
        ListCheck::Keys { columns, values } => keys_of(records, columns) == Some(
            ask::name_views(values),
        ),
        ListCheck::Ints { column, numbers } => ints_of(records, column@) == Some(
            int_items(numbers),
        ),
        ListCheck::Ids(ids) => ids_of(records) == ask::name_views(ids),
        ListCheck::IdsInAnyOrder(ids) => records.len() == ask::name_views(ids).len() && forall|
            i: int,
        |
            0 <= i < ask::name_views(ids).len() ==> ids_of(records).contains(
                #[trigger] ask::name_views(ids)[i],
            ),
        ListCheck::DistinctInts { column, count } => ints_of(records, column@) matches Some(ints)
            && distinct(ints) == count,
        ListCheck::At(i, checks) => i < records.len() && record_meets_all(
            checks,
            records[i as int],
            kept,
        ),
        ListCheck::Gathered { columns, values } => keys_of(records, columns) matches Some(keys)
            && text::views(kept.gathered@) + keys == ask::name_views(values),
        ListCheck::GatheredDistinct { columns, count } => {
            &&& keys_of(records, columns) matches Some(keys)
            &&& kept.gathered@.len() + keys.len() == count
            &&& distinct(text::views(kept.gathered@) + keys) == count
        },
    }
}

/// The records are as they must be, in every respect.
pub open spec fn list_meets_all(
    checks: List<ListCheck>,
    records: Seq<Record>,
    total: Option<i64>,
    kept: Kept,
) -> bool
    decreases checks,
{
    match checks {
        List::Nil => true,
        List::More(rest, check) => list_meets_all(*rest, records, total, kept) && list_meets(
            check,
            records,
            total,
            kept,
        ),
    }
}

fn to_key(data: &Row, columns: &List<&'static str>) -> (r: Option<String>)
    ensures
        text::opt_view(r) == key_of(data@, *columns),
    decreases *columns,
{
    match columns {
        List::Nil => {
            let r = String::new();
            proof {
                assert(r@ =~= Seq::<char>::empty());
            }
            Some(r)
        },
        List::More(rest, column) => {
            let first = matches!(**rest, List::Nil);
            let key = match to_key(data, rest) {
                Some(key) => key,
                None => {
                    return None;
                },
            };
            match data.get(column) {
                Some(value) => match value.as_str() {
                    Some(s) => if first {
                        Some(s.to_owned())
                    } else {
                        Some(join3(&key, "/", s))
                    },
                    None => None,
                },
                None => None,
            }
        },
    }
}

proof fn lemma_keys_stop(records: Seq<Record>, columns: List<&'static str>, n: int)
    requires
        0 <= n <= records.len(),
        keys_of(records.take(n), columns) is None,
    ensures
        keys_of(records, columns) is None,
    decreases records.len() - n,
{
    if n == records.len() {
        assert(records.take(n) =~= records);
    } else {
        assert(records.take(n + 1).drop_last() =~= records.take(n));
        lemma_keys_stop(records, columns, n + 1);
    }
}

fn to_keys(records: &Vec<Record>, columns: &List<&'static str>) -> (r: Option<Vec<String>>)
    ensures
        match r {
            Some(keys) => keys_of(records@, *columns) == Some(text::views(keys@)),
            None => keys_of(records@, *columns) is None,
        },
{
    let mut out: Vec<String> = Vec::new();
    proof {
        assert(records@.take(0) =~= Seq::empty());
        assert(text::views(out@) =~= Seq::empty());
    }
    for i in 0..records.len()
        invariant
            keys_of(records@.take(i as int), *columns) == Some(text::views(out@)),
    {
        let ghost before = out@;
        proof {
            assert(records@.take(i + 1).drop_last() =~= records@.take(i as int));
        }
        match to_key(&records[i].data, columns) {
            Some(key) => {
                out.push(key);
                proof {
                    assert(text::views(out@) =~= text::views(before).push(key@));
                }
            },
            None => {
                proof {
                    lemma_keys_stop(records@, *columns, i + 1);
                }
                return None;
            },
        }
    }
    proof {
        assert(records@.take(records@.len() as int) =~= records@);
    }
    Some(out)
}

proof fn lemma_ints_stop(records: Seq<Record>, column: Seq<char>, n: int)
    requires
        0 <= n <= records.len(),
        ints_of(records.take(n), column) is None,
    ensures
        ints_of(records, column) is None,
    decreases records.len() - n,
{
    if n == records.len() {
        assert(records.take(n) =~= records);
    } else {
        assert(records.take(n + 1).drop_last() =~= records.take(n));
        lemma_ints_stop(records, column, n + 1);
    }
}

fn to_ints(records: &Vec<Record>, column: &str) -> (r: Option<Vec<i64>>)
    ensures
        match r {
            Some(ints) => ints_of(records@, column@) == Some(ints@),
            None => ints_of(records@, column@) is None,
        },
{
    let mut out: Vec<i64> = Vec::new();
    proof {
        assert(records@.take(0) =~= Seq::empty());
    }
    for i in 0..records.len()
        invariant
            ints_of(records@.take(i as int), column@) == Some(out@),
    {
        proof {
            assert(records@.take(i + 1).drop_last() =~= records@.take(i as int));
        }
        let found = match records[i].data.get(column) {
            Some(value) => value.as_i64(),
            None => None,
        };
        match found {
            Some(n) => {
                out.push(n);
            },
            None => {
                proof {
                    lemma_ints_stop(records@, column@, i + 1);
                }
                return None;
            },
        }
    }
    proof {
        assert(records@.take(records@.len() as int) =~= records@);
    }
    Some(out)
}

fn same_texts(a: &Vec<String>, b: &Vec<String>) -> (r: bool)
    ensures
        r == (text::views(a@) == text::views(b@)),
{
    proof {
        assert(text::views(a@).len() == a@.len());
        assert(text::views(b@).len() == b@.len());
    }
    if a.len() != b.len() {
        return false;
    }
    for i in 0..a.len()
        invariant
            a@.len() == b@.len(),
            forall|k: int| 0 <= k < i ==> #[trigger] a@[k]@ == b@[k]@,
    {
        if !text::same(&a[i], &b[i]) {
            proof {
                assert(text::views(a@)[i as int] != text::views(b@)[i as int]);
            }
            return false;
        }
    }
    proof {
        assert(text::views(a@) =~= text::views(b@));
    }
    true
}

fn same_ints(a: &Vec<i64>, b: &List<i64>) -> (r: bool)
    ensures
        r == (a@ == int_items(*b)),
{
    let n: usize = a.len();
    let r = ends_with(a, n, b);
    proof {
        assert(a@.take(n as int) =~= a@);
    }
    r
}

/// Whether the first `n` integers are those of the list.
fn ends_with(a: &Vec<i64>, n: usize, b: &List<i64>) -> (r: bool)
    requires
        n <= a@.len(),
    ensures
        r == (a@.take(n as int) == int_items(*b)),
    decreases *b,
{
    match b {
        List::Nil => {
            proof {
                assert(n == 0 ==> a@.take(0) =~= Seq::<i64>::empty());
                assert(a@.take(n as int).len() == n);
            }
            n == 0
        },
        List::More(rest, last) => {
            proof {
                assert(a@.take(n as int).len() == n);
            }
            if n == 0 {
                return false;
            }
            let r = a[n - 1] == *last && ends_with(a, n - 1, rest);
            proof {
                let s = a@.take(n as int);
                let t = int_items(*b);
                assert(s =~= a@.take(n - 1).push(a@[n - 1]));
                if s == t {
                    assert(s.last() == t.last());
                    assert(s.drop_last() =~= a@.take(n - 1));
                    assert(t.drop_last() =~= int_items(**rest));
                }
            }
            r
        },
    }
}

fn ids(records: &Vec<Record>) -> (r: Vec<String>)
    ensures
        text::views(r@) == ids_of(records@),
{
    let mut out: Vec<String> = Vec::new();
    for i in 0..records.len()
        invariant
            out@.len() == i,
            forall|k: int| 0 <= k < i ==> #[trigger] out@[k]@ == records@[k].id@,
    {
        out.push(records[i].id.clone());
    }
    proof {
        assert(text::views(out@) =~= ids_of(records@));
    }
    out
}

fn lists(s: &Vec<String>, wanted: &str) -> (r: bool)
    ensures
        r == text::views(s@).contains(wanted@),
{
    for i in 0..s.len()
        invariant
            forall|k: int| 0 <= k < i ==> #[trigger] s@[k]@ != wanted@,
    {
        if text::same(&s[i], wanted) {
            proof {
                assert(text::views(s@)[i as int] == wanted@);
            }
            return true;
        }
    }
    proof {
        assert forall|k: int| 0 <= k < text::views(s@).len() implies text::views(s@)[k]
            != wanted@ by {
            assert(s@[k]@ != wanted@);
        }
    }
    false
}

fn count_distinct_ints(s: &Vec<i64>) -> (r: usize)
    ensures
        r == distinct(s@),
{
    let mut n: usize = 0;
    proof {
        assert(s@.take(0) =~= Seq::empty());
    }
    for i in 0..s.len()
        invariant
            n == distinct(s@.take(i as int)),
            n <= i,
    {
        let mut seen = false;
        for j in 0..i
            invariant
                i < s@.len(),
                seen == exists|k: int| 0 <= k < j && #[trigger] s@[k] == s@[i as int],
        {
            if s[j] == s[i] {
                seen = true;
            }
        }
        proof {
            let before = s@.take(i as int);
            assert(s@.take(i + 1).drop_last() =~= before);
            assert(s@.take(i + 1).last() == s@[i as int]);
            if seen {
                let k = choose|k: int| 0 <= k < i && #[trigger] s@[k] == s@[i as int];
                assert(before[k] == s@[i as int]);
            }
            if before.contains(s@[i as int]) {
                let k = choose|k: int| 0 <= k < before.len() && before[k] == s@[i as int];
                assert(s@[k] == s@[i as int]);
            }
        }
        if !seen {
            n += 1;
        }
    }
    proof {
        assert(s@.take(s@.len() as int) =~= s@);
    }
    n
}

fn count_distinct_texts(s: &Vec<String>) -> (r: usize)
    ensures
        r == distinct(text::views(s@)),
{
    let mut n: usize = 0;
    let ghost v = text::views(s@);
    proof {
        assert(v.take(0) =~= Seq::empty());
    }
    for i in 0..s.len()
        invariant
            v == text::views(s@),
            n == distinct(v.take(i as int)),
            n <= i,
    {
        let mut seen = false;
        for j in 0..i
            invariant
                i < s@.len(),
                seen == exists|k: int| 0 <= k < j && #[trigger] s@[k]@ == s@[i as int]@,
        {
            if text::same(&s[j], &s[i]) {
                seen = true;
            }
        }
        proof {
            let before = v.take(i as int);
            assert(v.take(i + 1).drop_last() =~= before);
            assert(v.take(i + 1).last() == s@[i as int]@);
            if seen {
                let k = choose|k: int| 0 <= k < i && #[trigger] s@[k]@ == s@[i as int]@;
                assert(before[k] == s@[i as int]@);
            }
            if before.contains(s@[i as int]@) {
                let k = choose|k: int| 0 <= k < before.len() && before[k] == s@[i as int]@;
                assert(s@[k]@ == s@[i as int]@);
            }
        }
        if !seen {
            n += 1;
        }
    }
    proof {
        assert(v.take(s@.len() as int) =~= v);
    }
    n
}

fn appended(a: &Vec<String>, b: Vec<String>) -> (r: Vec<String>)
    ensures
        text::views(r@) == text::views(a@) + text::views(b@),
{
    let mut out = clone_strings(a);
    let mut rest = b;
    let ghost start = out@;
    out.append(&mut rest);
    proof {
        assert(text::views(out@) =~= text::views(start) + text::views(b@));
    }
    out
}

fn check_list(
    check: &ListCheck,
    records: &Vec<Record>,
    total: Option<i64>,
    kept: &Kept,
) -> (r: bool)
    ensures
        r == list_meets(*check, records@, total, *kept),
{
    match check {
        ListCheck::Len(n) => records.len() == *n,
        ListCheck::Total(n) => match total {
            Some(m) => m == *n,
            None => false,
        },
        ListCheck::Keys { columns, values } => match to_keys(records, columns) {
            Some(keys) => same_texts(&keys, &ask::to_names(values)),
            None => false,
        },
        ListCheck::Ints { column, numbers } => match to_ints(records, column) {
            Some(ints) => same_ints(&ints, numbers),
            None => false,
        },
        ListCheck::Ids(wanted) => same_texts(&ids(records), &ask::to_names(wanted)),
        ListCheck::IdsInAnyOrder(wanted) => {
            let found = ids(records);
            let names = ask::to_names(wanted);
            proof {
                assert(text::views(names@).len() == names@.len());
                assert(ids_of(records@).len() == records@.len());
            }
            if records.len() != names.len() {
                return false;
            }
            for i in 0..names.len()
                invariant
                    text::views(found@) == ids_of(records@),
                    text::views(names@) == ask::name_views(*wanted),
                    *check == ListCheck::IdsInAnyOrder(*wanted),
                    forall|k: int|
                        0 <= k < i ==> ids_of(records@).contains(
                            #[trigger] ask::name_views(*wanted)[k],
                        ),
            {
                proof {
                    assert(text::views(names@)[i as int] == names@[i as int]@);
                }
                if !lists(&found, &names[i]) {
                    return false;
                }
            }
            true
        },
        ListCheck::DistinctInts { column, count } => match to_ints(records, column) {
            Some(ints) => count_distinct_ints(&ints) == *count,
            None => false,
        },
        ListCheck::At(i, checks) => if *i < records.len() {
            check_record(checks, &records[*i], kept)
        } else {
            false
        },
        ListCheck::Gathered { columns, values } => match to_keys(records, columns) {
            Some(keys) => same_texts(&appended(&kept.gathered, keys), &ask::to_names(values)),
            None => false,
        },
        ListCheck::GatheredDistinct { columns, count } => match to_keys(records, columns) {
            Some(keys) => {
                let all = appended(&kept.gathered, keys);
                proof {
                    assert(text::views(all@).len() == all@.len());
                    assert(text::views(kept.gathered@).len() == kept.gathered@.len());
                }
                all.len() == *count && count_distinct_texts(&all) == *count
            },
            None => false,
        },
    }
}

fn check_lists(
    checks: &List<ListCheck>,
    records: &Vec<Record>,
    total: Option<i64>,
    kept: &Kept,
) -> (r: bool)
    ensures
        r == list_meets_all(*checks, records@, total, *kept),
    decreases *checks,
{
    match checks {
        List::Nil => true,
        List::More(rest, check) => check_lists(rest, records, total, kept) && check_list(
            check,
            records,
            total,
            kept,
        ),
    }
}

// ---------------------------------------------------------------------------
// Batches
// ---------------------------------------------------------------------------

/// The write did what it must have done.
pub open spec fn effect_meets(effect: Effect, outcome: WriteOutcome, kept: Kept) -> bool {
    match effect {
        Effect::Created(checks) => outcome matches WriteOutcome::Created(record)
            && record_meets_all(checks, record, kept),
        Effect::Updated(checks) => outcome matches WriteOutcome::Updated(Some(record))
            && record_meets_all(checks, record, kept),
        Effect::NotUpdated => outcome matches WriteOutcome::Updated(None),
        Effect::Deleted(n) => outcome matches WriteOutcome::Deleted { rows_affected }
            && rows_affected == n,
        Effect::UpdatedWhere(n) => outcome matches WriteOutcome::UpdatedWhere { rows_affected }
            && rows_affected == n,
        Effect::DeletedWhere(n) => outcome matches WriteOutcome::DeletedWhere { rows_affected }
            && rows_affected == n,
        Effect::Upserted(n) => outcome matches WriteOutcome::Upserted { rows_affected }
            && rows_affected == n,
    }
}

/// Each of the writes that are named did what it must have done.
pub open spec fn effects_meet(
    checks: List<(usize, Effect)>,
    outcomes: Seq<WriteOutcome>,
    kept: Kept,
) -> bool
    decreases checks,
{
    match checks {
        List::Nil => true,
        List::More(rest, check) => effects_meet(*rest, outcomes, kept) && check.0 < outcomes.len()
            && effect_meets(check.1, outcomes[check.0 as int], kept),
    }
}

fn check_effect(effect: &Effect, outcome: &WriteOutcome, kept: &Kept) -> (r: bool)
    ensures
        r == effect_meets(*effect, *outcome, *kept),
{
    match (effect, outcome) {
        (Effect::Created(checks), WriteOutcome::Created(record)) => check_record(
            checks,
            record,
            kept,
        ),
        (Effect::Updated(checks), WriteOutcome::Updated(Some(record))) => check_record(
            checks,
            record,
            kept,
        ),
        (Effect::NotUpdated, WriteOutcome::Updated(None)) => true,
        (Effect::Deleted(n), WriteOutcome::Deleted { rows_affected }) => *rows_affected == *n,
        (Effect::UpdatedWhere(n), WriteOutcome::UpdatedWhere { rows_affected }) => *rows_affected
            == *n,
        (Effect::DeletedWhere(n), WriteOutcome::DeletedWhere { rows_affected }) => *rows_affected
            == *n,
        (Effect::Upserted(n), WriteOutcome::Upserted { rows_affected }) => *rows_affected == *n,
        _ => false,
    }
}

fn check_effects(
    checks: &List<(usize, Effect)>,
    outcomes: &Vec<WriteOutcome>,
    kept: &Kept,
) -> (r: bool)
    ensures
        r == effects_meet(*checks, outcomes@, *kept),
    decreases *checks,
{
    match checks {
        List::Nil => true,
        List::More(rest, check) => check_effects(rest, outcomes, kept) && check.0 < outcomes.len()
            && check_effect(&check.1, &outcomes[check.0], kept),
    }
}

/// How many of the racing inserts were admitted, where none failed.
pub open spec fn admitted(results: Seq<Result<GuardedInsert, DatabaseError>>) -> Option<nat>
    decreases results.len(),
{
    if results.len() == 0 {
        Some(0)
    } else {
        match (admitted(results.drop_last()), results.last()) {
            (Some(n), Ok(GuardedInsert::Inserted(_))) => Some(n + 1),
            (Some(n), Ok(GuardedInsert::Refused { .. })) => Some(n),
            _ => None,
        }
    }
}

proof fn lemma_admitted_stops(results: Seq<Result<GuardedInsert, DatabaseError>>, n: int)
    requires
        0 <= n <= results.len(),
        admitted(results.take(n)) is None,
    ensures
        admitted(results) is None,
    decreases results.len() - n,
{
    if n == results.len() {
        assert(results.take(n) =~= results);
    } else {
        assert(results.take(n + 1).drop_last() =~= results.take(n));
        lemma_admitted_stops(results, n + 1);
    }
}

fn count_admitted(results: &Vec<Result<GuardedInsert, DatabaseError>>) -> (r: Option<usize>)
    ensures
        match r {
            Some(n) => admitted(results@) == Some(n as nat),
            None => admitted(results@) is None,
        },
{
    let mut n: usize = 0;
    proof {
        assert(results@.take(0) =~= Seq::empty());
    }
    for i in 0..results.len()
        invariant
            admitted(results@.take(i as int)) == Some(n as nat),
            n <= i,
    {
        proof {
            assert(results@.take(i + 1).drop_last() =~= results@.take(i as int));
        }
        match &results[i] {
            Ok(GuardedInsert::Inserted(_)) => {
                n += 1;
            },
            Ok(GuardedInsert::Refused { .. }) => {},
            Err(_) => {
                proof {
                    lemma_admitted_stops(results@, i + 1);
                }
                return None;
            },
        }
    }
    proof {
        assert(results@.take(results@.len() as int) =~= results@);
    }
    Some(n)
}

// ---------------------------------------------------------------------------
// Answers
// ---------------------------------------------------------------------------

/// The error is a failure of this kind.
pub open spec fn is_fault(fault: Fault, error: DatabaseError) -> bool {
    match fault {
        Fault::NotFound => error is NotFound,
        Fault::AlreadyExists => error is AlreadyExists,
        Fault::InvalidArgument => error is InvalidArgument,
        Fault::Any => true,
    }
}

/// The bits of a sum; there being no table is zero.
pub open spec fn sum_bits(sum: Option<Double>) -> u64 {
    match sum {
        Some(d) => d.bits,
        None => 0,
    }
}

/// Every one of the names is listed.
pub open spec fn lists_all(names: List<&'static str>, columns: Seq<Seq<char>>) -> bool
    decreases names,
{
    match names {
        List::Nil => true,
        List::More(rest, name) => lists_all(*rest, columns) && columns.contains(name@),
    }
}

/// The answer is as it must be.
pub open spec fn answer_meets(expect: Expect, answer: Answer, kept: Kept) -> bool {
    match expect {
        Expect::Done => true,
        Expect::Fails(_) => false,
        Expect::Count(n) => answer matches Answer::Operation(Outcome::Count(m)) && m == n,
        Expect::KeepCount(_) => answer matches Answer::Operation(Outcome::Count(_)),
        Expect::CountKept(at) => answer matches Answer::Operation(Outcome::Count(m)) && kept.count(
            at@,
        ) == Some(m),
        Expect::SumNear { whole, within } => answer matches Answer::Operation(Outcome::Sum(sum))
            && double::near(sum_bits(sum), halves_of(whole, false), within),
        Expect::Exists(yes) => answer matches Answer::Exists(b) && b == yes,
        Expect::Columns(names) => answer matches Answer::Columns(columns) && lists_all(
            names,
            text::views(columns@),
        ),
        Expect::NoColumns => answer matches Answer::Columns(columns) && columns@.len() == 0,
        Expect::KeepColumns => answer is Columns,
        Expect::ColumnsKept => answer matches Answer::Columns(columns) && kept.columns matches Some(
            before,
        ) && text::views(columns@) == text::views(before@),
        Expect::Record { checks, .. } => answer matches Answer::Operation(Outcome::Record(record))
            && record_meets_all(checks, record, kept),
        Expect::Records { checks, gather } => {
            &&& match answer {
                Answer::Operation(Outcome::Records(records)) => list_meets_all(
                    checks,
                    records@,
                    None,
                    kept,
                ),
                Answer::Operation(Outcome::List(page)) => list_meets_all(
                    checks,
                    page.records@,
                    Some(page.total_count),
                    kept,
                ),
                _ => false,
            }
            &&& match gather {
                Gather::Nothing => true,
                Gather::First(columns) => page_keys(answer, columns) is Some,
                Gather::Next(columns) => page_keys(answer, columns) is Some,
            }
        },
        Expect::Effects { count, effects, keep_id } => {
            &&& answer matches Answer::Batch(outcomes)
            &&& count matches Some(n) ==> outcomes@.len() == n
            &&& effects_meet(effects, outcomes@, kept)
            &&& keep_id matches Some(at) ==> at.0 < outcomes@.len() && outcomes@[at.0 as int] is Created
        },
        Expect::Inserted(checks) => answer matches Answer::Operation(
            Outcome::Inserted(GuardedInsert::Inserted(record)),
        ) && record_meets_all(checks, record, kept),
        Expect::InsertRefused(n) => answer matches Answer::Operation(
            Outcome::Inserted(GuardedInsert::Refused { guard }),
        ) && guard == n,
        Expect::Updated(n) => answer matches Answer::Operation(
            Outcome::Updated(GuardedUpdate::Updated { rows_affected }),
        ) && rows_affected == n,
        Expect::UpdateRefused(n) => answer matches Answer::Operation(
            Outcome::Updated(GuardedUpdate::Refused { guard }),
        ) && guard == n,
        Expect::NoMatch => answer matches Answer::Operation(
            Outcome::Updated(GuardedUpdate::NoMatch),
        ),
        Expect::Admitted(n) => answer matches Answer::Race(results) && admitted(results@) == Some(
            n as nat,
        ),
        Expect::KeepTime(_) => answer is Time,
    }
}

/// The keys of the records of an answer.
pub open spec fn page_keys(answer: Answer, columns: List<&'static str>) -> Option<Seq<Seq<char>>> {
    match answer {
        Answer::Operation(Outcome::Records(records)) => keys_of(records@, columns),
        Answer::Operation(Outcome::List(page)) => keys_of(page.records@, columns),
        _ => None,
    }
}

/// The reply is as it must be.
pub open spec fn meets(
    expect: Expect,
    reply: Result<Answer, DatabaseError>,
    kept: Kept,
) -> bool {
    match reply {
        Ok(answer) => answer_meets(expect, answer, kept),
        Err(error) => expect matches Expect::Fails(fault) && is_fault(fault, error),
    }
}

fn check_fault(fault: Fault, error: &DatabaseError) -> (r: bool)
    ensures
        r == is_fault(fault, *error),
{
    match fault {
        Fault::NotFound => matches!(error, DatabaseError::NotFound),
        Fault::AlreadyExists => matches!(error, DatabaseError::AlreadyExists(_)),
        Fault::InvalidArgument => matches!(error, DatabaseError::InvalidArgument(_)),
        Fault::Any => true,
    }
}

fn bits_of(sum: &Option<Double>) -> (r: u64)
    ensures
        r == sum_bits(*sum),
{
    match sum {
        Some(d) => d.bits,
        None => 0,
    }
}

fn check_columns(names: &List<&'static str>, columns: &Vec<String>) -> (r: bool)
    ensures
        r == lists_all(*names, text::views(columns@)),
    decreases *names,
{
    match names {
        List::Nil => true,
        List::More(rest, name) => check_columns(rest, columns) && lists(columns, name),
    }
}

fn to_page_keys(answer: &Answer, columns: &List<&'static str>) -> (r: Option<Vec<String>>)
    ensures
        match r {
            Some(keys) => page_keys(*answer, *columns) == Some(text::views(keys@)),
            None => page_keys(*answer, *columns) is None,
        },
{
    match answer {
        Answer::Operation(Outcome::Records(records)) => to_keys(records, columns),
        Answer::Operation(Outcome::List(page)) => to_keys(&page.records, columns),
        _ => None,
    }
}

fn check_records(
    checks: &List<ListCheck>,
    gather: &Gather,
    answer: &Answer,
    kept: &Kept,
) -> (r: bool)
    ensures
        r == answer_meets(
            (Expect::Records { checks: *checks, gather: *gather }),
            *answer,
            *kept,
        ),
{
    let listed = match answer {
        Answer::Operation(Outcome::Records(records)) => check_lists(checks, records, None, kept),
        Answer::Operation(Outcome::List(page)) => check_lists(
            checks,
            &page.records,
            Some(page.total_count),
            kept,
        ),
        _ => false,
    };
    listed && match gather {
        Gather::Nothing => true,
        Gather::First(columns) => to_page_keys(answer, columns).is_some(),
        Gather::Next(columns) => to_page_keys(answer, columns).is_some(),
    }
}

fn check_batch(
    count: &Option<usize>,
    checks: &List<(usize, Effect)>,
    keep: &Option<(usize, &'static str)>,
    answer: &Answer,
    kept: &Kept,
) -> (r: bool)
    ensures
        r == answer_meets(
            (Expect::Effects { count: *count, effects: *checks, keep_id: *keep }),
            *answer,
            *kept,
        ),
{
    match answer {
        Answer::Batch(outcomes) => {
            if let Some(n) = count {
                if outcomes.len() != *n {
                    return false;
                }
            }
            if !check_effects(checks, outcomes, kept) {
                return false;
            }
            match keep {
                Some(at) => at.0 < outcomes.len() && matches!(
                    &outcomes[at.0],
                    WriteOutcome::Created(_)
                ),
                None => true,
            }
        },
        _ => false,
    }
}

fn check_answer(expect: &Expect, answer: &Answer, kept: &Kept) -> (r: bool)
    ensures
        r == answer_meets(*expect, *answer, *kept),
{
    match expect {
        Expect::Done => true,
        Expect::Fails(_) => false,
        Expect::Count(n) => match answer {
            Answer::Operation(Outcome::Count(m)) => *m == *n,
            _ => false,
        },
        Expect::KeepCount(_) => matches!(answer, Answer::Operation(Outcome::Count(_))),
        Expect::CountKept(at) => match answer {
            Answer::Operation(Outcome::Count(m)) => match kept.get_count(at) {
                Some(n) => n == *m,
                None => false,
            },
            _ => false,
        },
        Expect::SumNear { whole, within } => match answer {
            Answer::Operation(Outcome::Sum(sum)) => is_near(
                bits_of(sum),
                count_halves(*whole, false),
                *within,
            ),
            _ => false,
        },
        Expect::Exists(yes) => match answer {
            Answer::Exists(b) => *b == *yes,
            _ => false,
        },
        Expect::Columns(names) => match answer {
            Answer::Columns(columns) => check_columns(names, columns),
            _ => false,
        },
        Expect::NoColumns => match answer {
            Answer::Columns(columns) => columns.len() == 0,
            _ => false,
        },
        Expect::KeepColumns => matches!(answer, Answer::Columns(_)),
        Expect::ColumnsKept => match answer {
            Answer::Columns(columns) => match &kept.columns {
                Some(before) => same_texts(columns, before),
                None => false,
            },
            _ => false,
        },
        Expect::Record { checks, .. } => match answer {
            Answer::Operation(Outcome::Record(record)) => check_record(checks, record, kept),
            _ => false,
        },
        Expect::Records { checks, gather } => check_records(checks, gather, answer, kept),
        Expect::Effects { count, effects, keep_id } => check_batch(
            count,
            effects,
            keep_id,
            answer,
            kept,
        ),
        Expect::Inserted(checks) => match answer {
            Answer::Operation(Outcome::Inserted(GuardedInsert::Inserted(record))) => check_record(
                checks,
                record,
                kept,
            ),
            _ => false,
        },
        Expect::InsertRefused(n) => match answer {
            Answer::Operation(Outcome::Inserted(GuardedInsert::Refused { guard })) => *guard == *n,
            _ => false,
        },
        Expect::Updated(n) => match answer {
            Answer::Operation(
                Outcome::Updated(GuardedUpdate::Updated { rows_affected }),
            ) => *rows_affected == *n,
            _ => false,
        },
        Expect::UpdateRefused(n) => match answer {
            Answer::Operation(Outcome::Updated(GuardedUpdate::Refused { guard })) => *guard == *n,
            _ => false,
        },
        Expect::NoMatch => matches!(
            answer,
            Answer::Operation(Outcome::Updated(GuardedUpdate::NoMatch))
        ),
        Expect::Admitted(n) => match answer {
            Answer::Race(results) => match count_admitted(results) {
                Some(m) => m == *n,
                None => false,
            },
            _ => false,
        },
        Expect::KeepTime(_) => matches!(answer, Answer::Time(_)),
    }
}

/// Whether the reply is as it must be.
pub fn judge(expect: &Expect, reply: &Result<Answer, DatabaseError>, kept: &Kept) -> (r: bool)
    ensures
        r == meets(*expect, *reply, *kept),
{
    match reply {
        Ok(answer) => check_answer(expect, answer, kept),
        Err(error) => match expect {
            Expect::Fails(fault) => check_fault(*fault, error),
            _ => false,
        },
    }
}

// ---------------------------------------------------------------------------
// Keeping
// ---------------------------------------------------------------------------

/// The values that are kept after an answer.
pub open spec fn values_after(expect: Expect, answer: Answer, kept: Kept) -> Map<
    Seq<char>,
    JsonView,
> {
    match (expect, answer) {
        (Expect::KeepCount(at), Answer::Operation(Outcome::Count(n))) => kept.values@.insert(
            at@,
            JsonView::Int(n),
        ),
        (Expect::KeepTime(at), Answer::Time(s)) => kept.values@.insert(at@, JsonView::Str(s@)),
        (
            Expect::Record { keep: Keep::Id(at), .. },
            Answer::Operation(Outcome::Record(record)),
        ) => kept.values@.insert(at@, JsonView::Str(record.id@)),
        (Expect::Effects { keep_id: Some(at), .. }, Answer::Batch(outcomes)) => if at.0
            < outcomes@.len() {
            match outcomes@[at.0 as int] {
                WriteOutcome::Created(record) => kept.values@.insert(
                    at.1@,
                    JsonView::Str(record.id@),
                ),
                _ => kept.values@,
            }
        } else {
            kept.values@
        },
        _ => kept.values@,
    }
}

/// The columns of a record that are kept after an answer.
pub open spec fn data_after(expect: Expect, answer: Answer, kept: Kept) -> Option<
    Map<Seq<char>, JsonView>,
> {
    match (expect, answer) {
        (
            Expect::Record { keep: Keep::Data, .. },
            Answer::Operation(Outcome::Record(record)),
        ) => Some(record.data@),
        _ => text::opt_view(kept.data),
    }
}

/// The columns of a table that are kept after an answer.
pub open spec fn columns_after(expect: Expect, answer: Answer, kept: Kept) -> Option<
    Seq<Seq<char>>,
> {
    match (expect, answer) {
        (Expect::KeepColumns, Answer::Columns(columns)) => Some(text::views(columns@)),
        _ => match kept.columns {
            Some(columns) => Some(text::views(columns@)),
            None => None,
        },
    }
}

/// The keys that are gathered after an answer.
pub open spec fn gathered_after(expect: Expect, answer: Answer, kept: Kept) -> Seq<Seq<char>> {
    match expect {
        Expect::Records { gather: Gather::First(columns), .. } => match page_keys(answer, columns) {
            Some(keys) => keys,
            None => text::views(kept.gathered@),
        },
        Expect::Records { gather: Gather::Next(columns), .. } => match page_keys(answer, columns) {
            Some(keys) => text::views(kept.gathered@) + keys,
            None => text::views(kept.gathered@),
        },
        _ => text::views(kept.gathered@),
    }
}

/// What is kept after a reply: of a failure, nothing new.
pub open spec fn remembers(
    expect: Expect,
    reply: Result<Answer, DatabaseError>,
    kept: Kept,
    after: Kept,
) -> bool {
    match reply {
        Ok(answer) => {
            &&& after.values@ == values_after(expect, answer, kept)
            &&& text::opt_view(after.data) == data_after(expect, answer, kept)
            &&& columns_view(after) == columns_after(expect, answer, kept)
            &&& text::views(after.gathered@) == gathered_after(expect, answer, kept)
        },
        Err(_) => after == kept,
    }
}

/// The columns of a table that are kept.
pub open spec fn columns_view(kept: Kept) -> Option<Seq<Seq<char>>> {
    match kept.columns {
        Some(columns) => Some(text::views(columns@)),
        None => None,
    }
}

fn gather_keys(expect: &Expect, answer: &Answer, gathered: Vec<String>) -> (r: Vec<String>)
    ensures
        forall|kept: Kept|
            kept.gathered == gathered ==> text::views(r@) == #[trigger] gathered_after(
                *expect,
                *answer,
                kept,
            ),
{
    match expect {
        Expect::Records { gather: Gather::First(columns), .. } => match to_page_keys(
            answer,
            columns,
        ) {
            Some(keys) => keys,
            None => gathered,
        },
        Expect::Records { gather: Gather::Next(columns), .. } => match to_page_keys(
            answer,
            columns,
        ) {
            Some(keys) => appended(&gathered, keys),
            None => gathered,
        },
        _ => gathered,
    }
}

/// What is kept after a reply.
pub fn remember(expect: &Expect, reply: Result<Answer, DatabaseError>, kept: Kept) -> (r: Kept)
    ensures
        remembers(*expect, reply, kept, r),
{
    let answer = match reply {
        Ok(answer) => answer,
        Err(_) => {
            return kept;
        },
    };
    let Kept { values, data, columns, gathered } = kept;
    let gathered = gather_keys(expect, &answer, gathered);
    let mut values = values;
    match (expect, answer) {
        (Expect::KeepCount(at), Answer::Operation(Outcome::Count(n))) => {
            values.insert((*at).to_owned(), Json::Int(n));
            Kept { values, data, columns, gathered }
        },
        (Expect::KeepTime(at), Answer::Time(s)) => {
            values.insert((*at).to_owned(), Json::Str(s));
            Kept { values, data, columns, gathered }
        },
        (Expect::KeepColumns, Answer::Columns(found)) => {
            Kept { values, data, columns: Some(found), gathered }
        },
        (Expect::Record { keep, .. }, Answer::Operation(Outcome::Record(record))) => match keep {
            Keep::Nothing => Kept { values, data, columns, gathered },
            Keep::Id(at) => {
                values.insert((*at).to_owned(), Json::Str(record.id));
                Kept { values, data, columns, gathered }
            },
            Keep::Data => Kept { values, data: Some(record.data), columns, gathered },
        },
        (Expect::Effects { keep_id: Some(at), .. }, Answer::Batch(outcomes)) => {
            if at.0 < outcomes.len() {
                if let WriteOutcome::Created(record) = &outcomes[at.0] {
                    values.insert(at.1.to_owned(), Json::Str(record.id.clone()));
                }
            }
            Kept { values, data, columns, gathered }
        },
        _ => Kept { values, data, columns, gathered },
    }
}

} // verus!
