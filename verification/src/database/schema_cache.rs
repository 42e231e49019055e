//! What is remembered of the tables of a database.
//!
//! Only facts about a table that exists are kept. That a table is missing is
//! never remembered: someone else may create it at any moment, and nothing
//! here would learn of it.
//!
//! A fact is looked up in two steps, with a wait in between: the database is
//! asked, then the answer is written back. A change of the schema in between
//! must not be undone by the write-back. Every change moves the cache to a new
//! generation; a write-back names the generation it was asked in and is
//! dropped where that is over.

use vstd::prelude::*;

use crate::database::codec::JsonColumns;
use crate::text;

verus! {

/// A table's columns: every name in lower case, in order, and those declared
/// to hold JSON.
#[derive(Debug, PartialEq, Eq)]
pub struct TableColumns {
    pub names: Vec<String>,
    pub json: JsonColumns,
}

/// [`TableColumns`], as mathematics.
pub struct ColumnsView {
    pub names: Seq<Seq<char>>,
    pub json: Seq<Seq<char>>,
}

impl View for TableColumns {
    type V = ColumnsView;

    open spec fn view(&self) -> ColumnsView {
        ColumnsView { names: text::views(self.names@), json: self.json@ }
    }
}

impl Clone for TableColumns {
    fn clone(&self) -> (r: Self)
        ensures
            r@ == self@,
    {
        let names = self.names.clone();
        proof {
            assert(text::views(names@) =~= text::views(self.names@));
        }
        TableColumns { names, json: self.json.clone() }
    }
}

/// What is known of one table. A fact that is `None` is not known yet.
pub struct Facts {
    /// The table is known to exist.
    pub present: bool,
    pub columns: Option<ColumnsView>,
    /// The columns of the primary key, in key order; none for a table without.
    pub primary_key: Option<Seq<Seq<char>>>,
    /// Whether the table fills `id` itself.
    pub generates_id: Option<bool>,
}

/// Nothing is known.
pub open spec fn nothing() -> Facts {
    Facts { present: false, columns: None, primary_key: None, generates_id: None }
}

/// What is known hangs together: whatever else is known of a table, it is
/// known to exist, and a list of columns is never empty.
pub open spec fn coherent(f: Facts) -> bool {
    &&& f.columns is Some ==> f.present && f.columns->0.names.len() > 0
    &&& f.primary_key is Some ==> f.present
    &&& f.generates_id is Some ==> f.present
}

/// A cache, as mathematics: what is known of every table, and the generation.
pub struct CacheView {
    pub generation: u64,
    pub tables: Map<Seq<char>, Facts>,
}

/// What is remembered of one table.
#[derive(Debug)]
struct TableSchema {
    present: bool,
    columns: Option<TableColumns>,
    primary_key: Option<Vec<String>>,
    generates_id: Option<bool>,
}

/// The view of an optional list of names.
pub open spec fn opt_names(o: Option<Vec<String>>) -> Option<Seq<Seq<char>>> {
    match o {
        Some(v) => Some(text::views(v@)),
        None => None,
    }
}

impl View for TableSchema {
    type V = Facts;

    closed spec fn view(&self) -> Facts {
        Facts {
            present: self.present,
            columns: text::opt_view(self.columns),
            primary_key: opt_names(self.primary_key),
            generates_id: self.generates_id,
        }
    }
}

/// What is remembered of the tables of a database.
#[derive(Debug)]
pub struct SchemaCache {
    generation: u64,
    tables: Vec<(String, TableSchema)>,
}

spec fn listed(s: Seq<(String, TableSchema)>) -> Seq<(Seq<char>, Facts)> {
    s.map_values(|e: (String, TableSchema)| (e.0@, e.1@))
}

spec fn distinct(s: Seq<(Seq<char>, Facts)>) -> bool {
    forall|i: int, j: int|
        0 <= i < j < s.len() ==> (#[trigger] s[i]).0 != (#[trigger] s[j]).0
}

spec fn lookup(s: Seq<(Seq<char>, Facts)>, table: Seq<char>) -> Facts
    decreases s.len(),
{
    if s.len() == 0 {
        nothing()
    } else if s.last().0 == table {
        s.last().1
    } else {
        lookup(s.drop_last(), table)
    }
}

proof fn lemma_lookup_absent(s: Seq<(Seq<char>, Facts)>, table: Seq<char>)
    requires
        forall|i: int| 0 <= i < s.len() ==> (#[trigger] s[i]).0 != table,
    ensures
        lookup(s, table) == nothing(),
    decreases s.len(),
{
    if s.len() > 0 {
        assert(s[s.len() - 1].0 != table);
        assert forall|i: int| 0 <= i < s.drop_last().len() implies (
        #[trigger] s.drop_last()[i]).0 != table by {
            assert(s[i].0 != table);
        }
        lemma_lookup_absent(s.drop_last(), table);
    }
}

proof fn lemma_lookup_at(s: Seq<(Seq<char>, Facts)>, i: int)
    requires
        distinct(s),
        0 <= i < s.len(),
    ensures
        lookup(s, s[i].0) == s[i].1,
    decreases s.len(),
{
    if i < s.len() - 1 {
        assert(s[i].0 != s[s.len() - 1].0);
        assert(distinct(s.drop_last()));
        lemma_lookup_at(s.drop_last(), i);
    }
}

impl View for SchemaCache {
    type V = CacheView;

    closed spec fn view(&self) -> CacheView {
        CacheView {
            generation: self.generation,
            tables: Map::new(|t: Seq<char>| true, |t: Seq<char>| lookup(listed(self.tables@), t)),
        }
    }
}

/// A cache that knows nothing.
pub open spec fn empty_cache() -> CacheView {
    CacheView {
        generation: 0,
        tables: Map::new(|t: Seq<char>| true, |t: Seq<char>| nothing()),
    }
}

impl CacheView {
    /// This cache with other facts about one table.
    pub open spec fn with(self, table: Seq<char>, facts: Facts) -> CacheView {
        CacheView { generation: self.generation, tables: self.tables.insert(table, facts) }
    }

    /// What is known of a table.
    pub open spec fn of(self, table: Seq<char>) -> Facts {
        self.tables[table]
    }

    /// The generation after this one.
    pub open spec fn next_generation(self) -> u64 {
        if self.generation == u64::MAX {
            0
        } else {
            (self.generation + 1) as u64
        }
    }

    /// What this cache is after `table` is known to exist, as asked in
    /// generation `asked`.
    pub open spec fn after_present(self, table: Seq<char>, asked: u64) -> CacheView {
        if asked == self.generation {
            self.with(table, Facts { present: true, ..self.of(table) })
        } else {
            self
        }
    }

    /// What this cache is after the columns of `table` came back, as asked in
    /// generation `asked`: a list without columns proves nothing.
    pub open spec fn after_columns(
        self,
        table: Seq<char>,
        columns: ColumnsView,
        asked: u64,
    ) -> CacheView {
        if asked == self.generation && columns.names.len() > 0 {
            self.with(
                table,
                Facts { present: true, columns: Some(columns), ..self.of(table) },
            )
        } else {
            self
        }
    }

    /// What this cache is after the key of `table` came back, as asked in
    /// generation `asked`: a key proves the table, no key proves nothing of a
    /// table not known to exist.
    pub open spec fn after_primary_key(
        self,
        table: Seq<char>,
        key: Seq<Seq<char>>,
        asked: u64,
    ) -> CacheView {
        if asked == self.generation && (key.len() > 0 || self.of(table).present) {
            self.with(
                table,
                Facts { present: true, primary_key: Some(key), ..self.of(table) },
            )
        } else {
            self
        }
    }

    /// What this cache is after it came back whether `table` fills `id`
    /// itself, as asked in generation `asked`: "yes" proves the table, "no"
    /// proves nothing of a table not known to exist.
    pub open spec fn after_generates_id(
        self,
        table: Seq<char>,
        generates: bool,
        asked: u64,
    ) -> CacheView {
        if asked == self.generation && (generates || self.of(table).present) {
            self.with(
                table,
                Facts { present: true, generates_id: Some(generates), ..self.of(table) },
            )
        } else {
            self
        }
    }

    /// This cache after `table` changed.
    pub open spec fn after_change(self, table: Seq<char>) -> CacheView {
        CacheView {
            generation: self.next_generation(),
            tables: self.tables.insert(table, nothing()),
        }
    }

    /// This cache after any table may have changed.
    pub open spec fn after_any_change(self) -> CacheView {
        CacheView {
            generation: self.next_generation(),
            tables: Map::new(|t: Seq<char>| true, |t: Seq<char>| nothing()),
        }
    }
}

impl SchemaCache {
    #[verifier::type_invariant]
    spec fn well_formed(self) -> bool {
        distinct(listed(self.tables@))
    }

    /// Nothing stands under the name `table`.
    spec fn holds_no(self, table: Seq<char>) -> bool {
        forall|i: int| 0 <= i < self.tables@.len() ==> (#[trigger] self.tables@[i]).0@ != table
    }

    /// A cache that knows nothing.
    pub fn new() -> (r: Self)
        ensures
            r@ == empty_cache(),
    {
        let r = SchemaCache { generation: 0, tables: Vec::new() };
        proof {
            assert(listed(r.tables@) =~= Seq::empty());
            assert(r@.tables =~= empty_cache().tables);
        }
        r
    }

    /// The current generation. It is taken before the database is asked, and
    /// named when the answer is written back.
    pub fn generation(&self) -> (r: u64)
        ensures
            r == self@.generation,
    {
        self.generation
    }

    fn position(&self, table: &str) -> (r: Option<usize>)
        ensures
            match r {
                Some(i) => i < self.tables@.len() && self.tables@[i as int].0@ == table@
                    && self@.of(table@) == self.tables@[i as int].1@,
                None => self@.of(table@) == nothing() && self.holds_no(table@),
            },
    {
        proof {
            use_type_invariant(self);
        }
        let ghost s = listed(self.tables@);
        for i in 0..self.tables.len()
            invariant
                s == listed(self.tables@),
                distinct(s),
                forall|k: int| 0 <= k < i ==> (#[trigger] self.tables@[k]).0@ != table@,
        {
            assert(s[i as int].0 == self.tables@[i as int].0@);
            if text::same(self.tables[i].0.as_str(), table) {
                proof {
                    lemma_lookup_at(s, i as int);
                }
                return Some(i);
            }
        }
        proof {
            assert forall|i: int| 0 <= i < s.len() implies (#[trigger] s[i]).0 != table@ by {
                assert(self.tables@[i].0@ != table@);
            }
            lemma_lookup_absent(s, table@);
        }
        None
    }

    /// Whether `table` is known to exist. "No" is not an answer, only a reason
    /// to ask.
    pub fn table_known_present(&self, table: &str) -> (r: bool)
        ensures
            r == self@.of(table@).present,
    {
        match self.position(table) {
            Some(i) => self.tables[i].1.present,
            None => false,
        }
    }

    /// The columns of `table`, where they are known.
    pub fn columns(&self, table: &str) -> (r: Option<TableColumns>)
        ensures
            text::opt_view(r) == self@.of(table@).columns,
    {
        match self.position(table) {
            Some(i) => match &self.tables[i].1.columns {
                Some(c) => Some(c.clone()),
                None => None,
            },
            None => None,
        }
    }

    /// The columns of the primary key of `table`, where they are known.
    pub fn primary_key(&self, table: &str) -> (r: Option<Vec<String>>)
        ensures
            opt_names(r) == self@.of(table@).primary_key,
    {
        match self.position(table) {
            Some(i) => match &self.tables[i].1.primary_key {
                Some(k) => {
                    let r = k.clone();
                    proof {
                        assert(text::views(r@) =~= text::views(k@));
                    }
                    Some(r)
                },
                None => None,
            },
            None => None,
        }
    }

    /// Whether `table` fills `id` itself, where that is known.
    pub fn generates_id(&self, table: &str) -> (r: Option<bool>)
        ensures
            r == self@.of(table@).generates_id,
    {
        match self.position(table) {
            Some(i) => self.tables[i].1.generates_id,
            None => None,
        }
    }

    /// Takes what is remembered of `table` out of the cache.
    fn take(&mut self, table: &str) -> (r: TableSchema)
        ensures
            r@ == old(self)@.of(table@),
            final(self)@ == old(self)@.with(table@, nothing()),
            final(self).holds_no(table@),
    {
        proof {
            use_type_invariant(&*self);
        }
        let ghost s = listed(self.tables@);
        match self.position(table) {
            Some(i) => {
                let mut tables: Vec<(String, TableSchema)> = Vec::new();
                std::mem::swap(&mut tables, &mut self.tables);
                let e = tables.remove(i);
                let ghost after = listed(tables@);
                proof {
                    assert(after =~= s.remove(i as int));
                    assert(s[i as int].0 == table@);
                    lemma_remove(s, i as int);
                }
                self.tables = tables;
                proof {
                    assert(self@.tables =~= old(self)@.tables.insert(table@, nothing()));
                    assert forall|k: int| 0 <= k < self.tables@.len() implies (
                    #[trigger] self.tables@[k]).0@ != table@ by {
                        assert(after[k].0 != table@);
                    }
                }
                e.1
            },
            None => {
                proof {
                    assert(self@.tables =~= old(self)@.tables.insert(table@, nothing()));
                }
                TableSchema { present: false, columns: None, primary_key: None, generates_id: None }
            },
        }
    }

    /// Puts what is remembered of `table` into the cache, which holds nothing
    /// of it.
    fn put(&mut self, table: &str, schema: TableSchema)
        requires
            old(self).holds_no(table@),
        ensures
            final(self)@ == old(self)@.with(table@, schema@),
    {
        proof {
            use_type_invariant(&*self);
        }
        let ghost before = self@;
        let ghost facts = schema@;
        let ghost s = listed(self.tables@);
        let mut tables: Vec<(String, TableSchema)> = Vec::new();
        std::mem::swap(&mut tables, &mut self.tables);
        let ghost held = tables@;
        tables.push((table.to_owned(), schema));
        let ghost after = listed(tables@);
        proof {
            assert(after =~= s.push((table@, facts)));
            assert(after.drop_last() =~= s);
            assert(distinct(after)) by {
                assert forall|a: int, b: int| 0 <= a < b < after.len() implies (
                #[trigger] after[a]).0 != (#[trigger] after[b]).0 by {
                    assert(after[a] == s[a]);
                    assert(held[a].0@ == s[a].0);
                    if b < s.len() {
                        assert(after[b] == s[b]);
                    }
                }
            }
        }
        self.tables = tables;
        proof {
            assert(self@.tables =~= before.tables.insert(table@, facts));
        }
    }

    /// Records that `table` exists, unless generation `expected_gen` is over.
    /// There is no way to record that a table is missing.
    pub fn mark_table_present_if_gen(&mut self, table: &str, expected_gen: u64)
        ensures
            final(self)@ == old(self)@.after_present(table@, expected_gen),
    {
        if self.generation != expected_gen {
            return ;
        }
        let mut schema = self.take(table);
        schema.present = true;
        self.put(table, schema);
        proof {
            assert(self@.tables =~= old(self)@.after_present(table@, expected_gen).tables);
        }
    }

    /// Records the columns of `table`, unless generation `expected_gen` is
    /// over. A list of columns proves that the table exists; an empty list is
    /// what a missing table answers, and is not recorded.
    pub fn set_columns_if_gen(&mut self, table: &str, columns: TableColumns, expected_gen: u64)
        ensures
            final(self)@ == old(self)@.after_columns(table@, columns@, expected_gen),
    {
        if columns.names.len() == 0 {
            return ;
        }
        if self.generation != expected_gen {
            return ;
        }
        let mut schema = self.take(table);
        schema.present = true;
        schema.columns = Some(columns);
        self.put(table, schema);
        proof {
            assert(self@.tables =~= old(self)@.after_columns(
                table@,
                columns@,
                expected_gen,
            ).tables);
        }
    }

    /// Records the columns of the primary key of `table`, unless generation
    /// `expected_gen` is over. A key proves that the table exists; no key is
    /// recorded only of a table known to exist.
    pub fn set_primary_key_if_gen(&mut self, table: &str, key: Vec<String>, expected_gen: u64)
        ensures
            final(self)@ == old(self)@.after_primary_key(
                table@,
                text::views(key@),
                expected_gen,
            ),
    {
        if self.generation != expected_gen {
            return ;
        }
        if key.len() == 0 && !self.table_known_present(table) {
            return ;
        }
        let mut schema = self.take(table);
        schema.present = true;
        schema.primary_key = Some(key);
        self.put(table, schema);
        proof {
            assert(self@.tables =~= old(self)@.after_primary_key(
                table@,
                text::views(key@),
                expected_gen,
            ).tables);
        }
    }

    /// Records whether `table` fills `id` itself, unless generation
    /// `expected_gen` is over. "Yes" proves that the table exists; "no" is
    /// recorded only of a table known to exist.
    pub fn set_generates_id_if_gen(&mut self, table: &str, generates_id: bool, expected_gen: u64)
        ensures
            final(self)@ == old(self)@.after_generates_id(table@, generates_id, expected_gen),
    {
        if self.generation != expected_gen {
            return ;
        }
        if !generates_id && !self.table_known_present(table) {
            return ;
        }
        let mut schema = self.take(table);
        schema.present = true;
        schema.generates_id = Some(generates_id);
        self.put(table, schema);
        proof {
            assert(self@.tables =~= old(self)@.after_generates_id(
                table@,
                generates_id,
                expected_gen,
            ).tables);
        }
    }

    /// Forgets everything about `table` and ends the generation: a write-back
    /// still under way is dropped.
    pub fn invalidate(&mut self, table: &str)
        ensures
            final(self)@ == old(self)@.after_change(table@),
    {
        let _ = self.take(table);
        proof {
            use_type_invariant(&*self);
        }
        self.generation = self.generation.wrapping_add(1);
        proof {
            assert(self@.tables =~= old(self)@.after_change(table@).tables);
        }
    }

    /// Forgets every table and ends the generation.
    pub fn clear(&mut self)
        ensures
            final(self)@ == old(self)@.after_any_change(),
    {
        self.tables = Vec::new();
        proof {
            assert(listed(self.tables@) =~= Seq::empty());
        }
        self.generation = self.generation.wrapping_add(1);
        proof {
            assert(self@.tables =~= old(self)@.after_any_change().tables);
        }
    }
}

/// Taking an entry out of a list of distinct ones leaves the others findable
/// and that one not.
proof fn lemma_remove(s: Seq<(Seq<char>, Facts)>, i: int)
    requires
        distinct(s),
        0 <= i < s.len(),
    ensures
        distinct(s.remove(i)),
        forall|k: int| 0 <= k < s.remove(i).len() ==> (#[trigger] s.remove(i)[k]).0 != s[i].0,
        forall|t: Seq<char>|
            #[trigger] lookup(s.remove(i), t) == (if t == s[i].0 {
                nothing()
            } else {
                lookup(s, t)
            }),
{
    let after = s.remove(i);
    assert forall|a: int, b: int| 0 <= a < b < after.len() implies (#[trigger] after[a]).0 != (
    #[trigger] after[b]).0 by {
        let x = if a < i {
            a
        } else {
            a + 1
        };
        let y = if b < i {
            b
        } else {
            b + 1
        };
        assert(s[x].0 != s[y].0);
    }
    assert forall|k: int| 0 <= k < after.len() implies (#[trigger] after[k]).0 != s[i].0 by {
        if k < i {
            assert(s[k].0 != s[i].0);
        } else {
            assert(s[i].0 != s[k + 1].0);
        }
    }
    assert forall|t: Seq<char>| #[trigger] lookup(after, t) == (if t == s[i].0 {
        nothing()
    } else {
        lookup(s, t)
    }) by {
        if t == s[i].0 {
            lemma_lookup_absent(after, t);
        } else if exists|k: int| 0 <= k < s.len() && (#[trigger] s[k]).0 == t {
            let k = choose|k: int| 0 <= k < s.len() && (#[trigger] s[k]).0 == t;
            lemma_lookup_at(s, k);
            if k < i {
                assert(after[k] == s[k]);
                lemma_lookup_at(after, k);
            } else {
                assert(after[k - 1] == s[k]);
                lemma_lookup_at(after, k - 1);
            }
        } else {
            lemma_lookup_absent(s, t);
            assert forall|k: int| 0 <= k < after.len() implies (#[trigger] after[k]).0 != t by {
                if k < i {
                    assert(after[k] == s[k]);
                } else {
                    assert(after[k] == s[k + 1]);
                }
            }
            lemma_lookup_absent(after, t);
        }
    }
}

// ---------------------------------------------------------------------------
// What holds of every cache
// ---------------------------------------------------------------------------

/// What is known of every table hangs together.
pub open spec fn all_coherent(c: CacheView) -> bool {
    forall|t: Seq<char>| coherent(#[trigger] c.of(t))
}

/// An empty cache is coherent, and everything that is ever done to a cache
/// keeps it so: a fact is only known of a table known to exist, and no list of
/// columns is empty.
pub proof fn coherence_is_kept(
    c: CacheView,
    table: Seq<char>,
    asked: u64,
    columns: ColumnsView,
    key: Seq<Seq<char>>,
    generates: bool,
)
    requires
        all_coherent(c),
        forall|t: Seq<char>| #[trigger] c.tables.dom().contains(t),
    ensures
        all_coherent(empty_cache()),
        all_coherent(c.after_present(table, asked)),
        all_coherent(c.after_columns(table, columns, asked)),
        all_coherent(c.after_primary_key(table, key, asked)),
        all_coherent(c.after_generates_id(table, generates, asked)),
        all_coherent(c.after_change(table)),
        all_coherent(c.after_any_change()),
{
    assert(coherent(c.of(table)));
    assert forall|t: Seq<char>| coherent(#[trigger] c.after_present(table, asked).of(t)) by {
        assert(coherent(c.of(t)));
    }
    assert forall|t: Seq<char>|
        coherent(#[trigger] c.after_columns(table, columns, asked).of(t)) by {
        assert(coherent(c.of(t)));
    }
    assert forall|t: Seq<char>|
        coherent(#[trigger] c.after_primary_key(table, key, asked).of(t)) by {
        assert(coherent(c.of(t)));
    }
    assert forall|t: Seq<char>|
        coherent(#[trigger] c.after_generates_id(table, generates, asked).of(t)) by {
        assert(coherent(c.of(t)));
    }
    assert forall|t: Seq<char>| coherent(#[trigger] c.after_change(table).of(t)) by {
        assert(coherent(c.of(t)));
    }
}

/// A write-back that was asked for before a change of the schema changes
/// nothing: the change is not undone.
pub proof fn stale_write_back_is_dropped(
    c: CacheView,
    changed: Seq<char>,
    table: Seq<char>,
    columns: ColumnsView,
    key: Seq<Seq<char>>,
    generates: bool,
)
    ensures
        ({
            let asked = c.generation;
            let one = c.after_change(changed);
            let all = c.after_any_change();
            &&& one.after_present(table, asked) == one
            &&& one.after_columns(table, columns, asked) == one
            &&& one.after_primary_key(table, key, asked) == one
            &&& one.after_generates_id(table, generates, asked) == one
            &&& all.after_present(table, asked) == all
            &&& all.after_columns(table, columns, asked) == all
            &&& all.after_primary_key(table, key, asked) == all
            &&& all.after_generates_id(table, generates, asked) == all
        }),
{
}

/// A change of one table forgets that table and no other.
pub proof fn change_forgets_one_table(c: CacheView, changed: Seq<char>, other: Seq<char>)
    requires
        other != changed,
    ensures
        c.after_change(changed).of(changed) == nothing(),
        c.after_change(changed).of(other) == c.of(other),
        c.after_change(changed).generation != c.generation,
{
}

/// What a write-back of the current generation records is what is read back.
pub proof fn recorded_facts_are_read_back(
    c: CacheView,
    table: Seq<char>,
    columns: ColumnsView,
    key: Seq<Seq<char>>,
    generates: bool,
)
    ensures
        c.after_present(table, c.generation).of(table).present,
        columns.names.len() > 0 ==> c.after_columns(table, columns, c.generation).of(table).columns
            == Some(columns) && c.after_columns(table, columns, c.generation).of(table).present,
        key.len() > 0 || c.of(table).present ==> c.after_primary_key(table, key, c.generation).of(
            table,
        ).primary_key == Some(key),
        generates || c.of(table).present ==> c.after_generates_id(
            table,
            generates,
            c.generation,
        ).of(table).generates_id == Some(generates),
{
}

/// That a table is missing is never recorded: what does not prove a table
/// leaves what is known of it as it was.
pub proof fn absence_is_never_recorded(c: CacheView, table: Seq<char>, asked: u64)
    requires
        !c.of(table).present,
    ensures
        c.after_columns(
            table,
            ColumnsView { names: Seq::empty(), json: Seq::empty() },
            asked,
        ) == c,
        c.after_primary_key(table, Seq::empty(), asked) == c,
        c.after_generates_id(table, false, asked) == c,
{
}

/// Recording one fact of a table leaves its other facts, what is known of other
/// tables, and the generation as they are.
pub proof fn recording_changes_one_fact(
    c: CacheView,
    table: Seq<char>,
    other: Seq<char>,
    asked: u64,
    columns: ColumnsView,
    key: Seq<Seq<char>>,
    generates: bool,
)
    requires
        other != table,
        forall|t: Seq<char>| #[trigger] c.tables.dom().contains(t),
    ensures
        c.after_present(table, asked).of(other) == c.of(other),
        c.after_columns(table, columns, asked).of(other) == c.of(other),
        c.after_primary_key(table, key, asked).of(other) == c.of(other),
        c.after_generates_id(table, generates, asked).of(other) == c.of(other),
        c.after_present(table, asked).generation == c.generation,
        c.after_columns(table, columns, asked).generation == c.generation,
        c.after_primary_key(table, key, asked).generation == c.generation,
        c.after_generates_id(table, generates, asked).generation == c.generation,
        c.after_present(table, asked).of(table).columns == c.of(table).columns,
        c.after_present(table, asked).of(table).primary_key == c.of(table).primary_key,
        c.after_present(table, asked).of(table).generates_id == c.of(table).generates_id,
        c.after_columns(table, columns, asked).of(table).primary_key == c.of(table).primary_key,
        c.after_columns(table, columns, asked).of(table).generates_id == c.of(table).generates_id,
        c.after_primary_key(table, key, asked).of(table).columns == c.of(table).columns,
        c.after_primary_key(table, key, asked).of(table).generates_id == c.of(table).generates_id,
        c.after_generates_id(table, generates, asked).of(table).columns == c.of(table).columns,
        c.after_generates_id(table, generates, asked).of(table).primary_key == c.of(
            table,
        ).primary_key,
{
}

/// Where any table may have changed, nothing is known of any, and what was asked
/// for before is not taken.
pub proof fn any_change_forgets_all(c: CacheView, table: Seq<char>)
    ensures
        c.after_any_change().of(table) == nothing(),
        c.after_any_change().generation != c.generation,
        !nothing().present,
        nothing().columns is None,
        nothing().primary_key is None,
        nothing().generates_id is None,
{
}

} // verus!
