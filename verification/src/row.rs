//! A row: values by column name.
//!
//! A row holds each column once. Its model is the map from column names to
//! values; the order in which the columns stand carries no meaning.

use vstd::prelude::*;

use crate::json;
use crate::json::{Json, JsonView};
use crate::text;

verus! {

/// Values by column name, each column once.
#[derive(Debug)]
pub struct Row {
    entries: Vec<(String, Json)>,
}

/// The map that a list of distinct entries makes.
pub open spec fn entries_map(s: Seq<(Seq<char>, JsonView)>) -> Map<Seq<char>, JsonView>
    decreases s.len(),
{
    if s.len() == 0 {
        Map::empty()
    } else {
        entries_map(s.drop_last()).insert(s.last().0, s.last().1)
    }
}

/// No name stands twice.
pub open spec fn distinct_names(s: Seq<(Seq<char>, JsonView)>) -> bool {
    forall|i: int, j: int|
        0 <= i < j < s.len() ==> (#[trigger] s[i]).0 != (#[trigger] s[j]).0
}

/// The map of a list of distinct entries has its names as domain and its
/// values as values.
pub proof fn lemma_entries_map(s: Seq<(Seq<char>, JsonView)>)
    requires
        distinct_names(s),
    ensures
        forall|i: int| 0 <= i < s.len() ==> entries_map(s).dom().contains((#[trigger] s[i]).0),
        forall|i: int| 0 <= i < s.len() ==> entries_map(s)[(#[trigger] s[i]).0] == s[i].1,
        forall|k: Seq<char>|
            entries_map(s).dom().contains(k) ==> exists|i: int|
                0 <= i < s.len() && (#[trigger] s[i]).0 == k,
        entries_map(s).dom().finite(),
        entries_map(s).dom().len() == s.len(),
    decreases s.len(),
{
    if s.len() > 0 {
        let t = s.drop_last();
        assert(distinct_names(t));
        lemma_entries_map(t);
        assert forall|i: int| 0 <= i < s.len() implies entries_map(s).dom().contains(
            (#[trigger] s[i]).0,
        ) && entries_map(s)[s[i].0] == s[i].1 by {
            if i < t.len() {
                assert(t[i] == s[i]);
                assert(s[i].0 != s[s.len() - 1].0);
            }
        }
        assert forall|k: Seq<char>| entries_map(s).dom().contains(k) implies exists|i: int|
            0 <= i < s.len() && (#[trigger] s[i]).0 == k by {
            if k == s.last().0 {
                assert(s[s.len() - 1].0 == k);
            } else {
                assert(entries_map(t).dom().contains(k));
                let i = choose|i: int| 0 <= i < t.len() && (#[trigger] t[i]).0 == k;
                assert(s[i] == t[i]);
            }
        }
        if entries_map(t).dom().contains(s.last().0) {
            let i = choose|i: int| 0 <= i < t.len() && (#[trigger] t[i]).0 == s.last().0;
            assert(s[i] == t[i]);
            assert(s[i].0 != s[s.len() - 1].0);
        }
        assert(entries_map(s).dom() =~= entries_map(t).dom().insert(s.last().0));
    } else {
        assert(entries_map(s).dom() =~= Set::<Seq<char>>::empty());
    }
}

/// Two rows hold the same columns with equal values.
pub open spec fn row_equal(a: Map<Seq<char>, JsonView>, b: Map<Seq<char>, JsonView>) -> bool {
    a.dom() == b.dom() && forall|k: Seq<char>| #[trigger]
        a.dom().contains(k) ==> json::json_equal(a[k], b[k])
}

impl View for Row {
    type V = Map<Seq<char>, JsonView>;

    closed spec fn view(&self) -> Map<Seq<char>, JsonView> {
        entries_map(self.listed())
    }
}

impl Row {
    #[verifier::type_invariant]
    spec fn well_formed(self) -> bool {
        distinct_names(json::entry_views(self.entries@))
    }

    /// The entries in the order in which they stand.
    pub closed spec fn listed(&self) -> Seq<(Seq<char>, JsonView)> {
        json::entry_views(self.entries@)
    }

    /// A row without columns.
    pub fn new() -> (r: Self)
        ensures
            r@ == Map::<Seq<char>, JsonView>::empty(),
    {
        let r = Row { entries: Vec::new() };
        proof {
            assert(r.listed() =~= Seq::empty());
        }
        r
    }

    /// How many columns the row holds.
    pub fn len(&self) -> (r: usize)
        ensures
            r == self.listed().len(),
            r == self@.dom().len(),
            self@.dom().finite(),
            distinct_names(self.listed()),
            self@ == entries_map(self.listed()),
    {
        proof {
            use_type_invariant(self);
            lemma_entries_map(self.listed());
        }
        self.entries.len()
    }

    /// The name of column `i`, in the order in which the columns stand.
    pub fn name_at(&self, i: usize) -> (r: &str)
        requires
            i < self.listed().len(),
        ensures
            r@ == self.listed()[i as int].0,
    {
        self.entries[i].0.as_str()
    }

    /// The value of column `i`, in the order in which the columns stand.
    pub fn value_at(&self, i: usize) -> (r: &Json)
        requires
            i < self.listed().len(),
        ensures
            r@ == self.listed()[i as int].1,
    {
        &self.entries[i].1
    }

    /// Where column `name` stands, if it does.
    fn position(&self, name: &str) -> (r: Option<usize>)
        ensures
            match r {
                Some(i) => i < self.entries@.len() && self.entries@[i as int].0@ == name@
                    && self@.dom().contains(name@) && self@[name@] == self.entries@[i as int].1@,
                None => !self@.dom().contains(name@),
            },
    {
        proof {
            use_type_invariant(self);
            lemma_entries_map(self.listed());
        }
        let mut i: usize = 0;
        while i < self.entries.len()
            invariant
                i <= self.entries@.len(),
                forall|k: int| 0 <= k < i ==> (#[trigger] self.listed()[k]).0 != name@,
                distinct_names(self.listed()),
            decreases self.entries@.len() - i,
        {
            assert(self.listed()[i as int].0 == self.entries@[i as int].0@);
            if text::same(self.entries[i].0.as_str(), name) {
                proof {
                    lemma_entries_map(self.listed());
                }
                return Some(i);
            }
            i += 1;
        }
        proof {
            lemma_entries_map(self.listed());
        }
        None
    }

    /// The value of column `name`, if the row holds it.
    pub fn get(&self, name: &str) -> (r: Option<&Json>)
        ensures
            match r {
                Some(v) => self@.dom().contains(name@) && v@ == self@[name@],
                None => !self@.dom().contains(name@),
            },
    {
        match self.position(name) {
            Some(i) => Some(&self.entries[i].1),
            None => None,
        }
    }

    /// Whether this and `other` hold the same columns with equal values.
    pub fn same(&self, other: &Row) -> (r: bool)
        ensures
            r == row_equal(self@, other@),
    {
        let n: usize = self.len();
        if n != other.len() {
            return false;
        }
        proof {
            lemma_entries_map(self.listed());
        }
        for i in 0..n
            invariant
                n == self.listed().len(),
                n == self@.dom().len(),
                n == other@.dom().len(),
                self@ == entries_map(self.listed()),
                distinct_names(self.listed()),
                self@.dom().finite(),
                other@.dom().finite(),
                forall|k: int|
                    0 <= k < i ==> other@.dom().contains((#[trigger] self.listed()[k]).0)
                        && json::json_equal(
                        self.listed()[k].1,
                        other@[self.listed()[k].0],
                    ),
        {
            proof {
                lemma_entries_map(self.listed());
                assert(self@.dom().contains(self.listed()[i as int].0));
            }
            match other.get(self.name_at(i)) {
                Some(value) => {
                    if !self.value_at(i).same(value) {
                        return false;
                    }
                },
                None => {
                    return false;
                },
            }
        }
        proof {
            lemma_entries_map(self.listed());
            assert forall|k: Seq<char>| self@.dom().contains(k) implies other@.dom().contains(k)
                && json::json_equal(self@[k], other@[k]) by {
                let i = choose|i: int| 0 <= i < self.listed().len() && (
                #[trigger] self.listed()[i]).0 == k;
                assert(self.listed()[i].0 == k);
            }
            vstd::set_lib::lemma_subset_equality(self@.dom(), other@.dom());
        }
        true
    }

    /// The row as it is shown to a programmer, its columns in the order in
    /// which they stand.
    pub fn to_debug(&self) -> (r: String)
        ensures
            r@ == "{"@ + json::debug_entries(self.listed()) + "}"@,
    {
        let n: usize = self.len();
        let mut out = "{".to_owned();
        let ghost items = self.listed();
        proof {
            assert(items.take(0) =~= Seq::empty());
            assert(out@ =~= "{"@ + json::debug_entries(items.take(0)));
        }
        for i in 0..n
            invariant
                items == self.listed(),
                n == items.len(),
                out@ == "{"@ + json::debug_entries(items.take(i as int)),
        {
            proof {
                let next = items.take(i + 1);
                assert(next.drop_last() =~= items.take(i as int));
                assert(next[next.len() - 1] == items[i as int]);
                if i == 0 {
                    assert(items.take(0) =~= Seq::empty());
                }
            }
            if i > 0 {
                out = out.concat(", ");
            }
            let name = text::debug_text(self.name_at(i));
            let value = self.value_at(i).to_debug();
            out = out.concat(name.as_str());
            out = out.concat(": ");
            out = out.concat(value.as_str());
            proof {
                assert(out@ =~= "{"@ + json::debug_entries(items.take(i + 1)));
            }
        }
        out = out.concat("}");
        proof {
            assert(items.take(n as int) =~= items);
            assert(out@ =~= "{"@ + json::debug_entries(items) + "}"@);
        }
        out
    }

    /// Whether the row holds column `name`.
    pub fn contains_key(&self, name: &str) -> (r: bool)
        ensures
            r == self@.dom().contains(name@),
    {
        self.position(name).is_some()
    }

    /// Sets column `name` to `value`.
    pub fn insert(&mut self, name: String, value: Json)
        ensures
            final(self)@ == old(self)@.insert(name@, value@),
    {
        proof {
            use_type_invariant(&*self);
            lemma_entries_map(self.listed());
        }
        let ghost before = self.listed();
        let ghost k = name@;
        let ghost v = value@;
        match self.position(name.as_str()) {
            Some(i) => {
                let mut entries: Vec<(String, Json)> = Vec::new();
                std::mem::swap(&mut entries, &mut self.entries);
                entries.set(i, (name, value));
                let ghost after = json::entry_views(entries@);
                proof {
                    assert(after =~= before.update(i as int, (k, v)));
                    assert(before[i as int].0 == k);
                    assert(distinct_names(after)) by {
                        assert forall|a: int, b: int| 0 <= a < b < after.len() implies (
                        #[trigger] after[a]).0 != (#[trigger] after[b]).0 by {
                            assert(before[a].0 != before[b].0);
                        }
                    }
                    lemma_entries_map(after);
                    lemma_maps_agree(before, after, k, v, i as int);
                }
                self.entries = entries;
            },
            None => {
                let mut entries: Vec<(String, Json)> = Vec::new();
                std::mem::swap(&mut entries, &mut self.entries);
                entries.push((name, value));
                let ghost after = json::entry_views(entries@);
                proof {
                    assert(after =~= before.push((k, v)));
                    assert(distinct_names(after)) by {
                        assert forall|a: int, b: int| 0 <= a < b < after.len() implies (
                        #[trigger] after[a]).0 != (#[trigger] after[b]).0 by {
                            assert(after[a] == before[a]);
                            if b < before.len() {
                                assert(after[b] == before[b]);
                            }
                        }
                    }
                    assert(after.drop_last() =~= before);
                }
                self.entries = entries;
            },
        }
    }

    /// Sets column `name` to `value` unless the row holds it already.
    pub fn insert_absent(&mut self, name: String, value: Json)
        ensures
            final(self)@ == if old(self)@.dom().contains(name@) {
                old(self)@
            } else {
                old(self)@.insert(name@, value@)
            },
    {
        if !self.contains_key(name.as_str()) {
            self.insert(name, value);
        }
    }
}

/// Replacing the value of one entry is inserting it into the map.
proof fn lemma_maps_agree(
    before: Seq<(Seq<char>, JsonView)>,
    after: Seq<(Seq<char>, JsonView)>,
    k: Seq<char>,
    v: JsonView,
    i: int,
)
    requires
        0 <= i < before.len(),
        before[i].0 == k,
        after == before.update(i, (k, v)),
        distinct_names(before),
        distinct_names(after),
    ensures
        entries_map(after) == entries_map(before).insert(k, v),
{
    lemma_entries_map(before);
    lemma_entries_map(after);
    let m = entries_map(before).insert(k, v);
    assert forall|x: Seq<char>| entries_map(after).dom().contains(x) == m.dom().contains(x) by {
        if entries_map(after).dom().contains(x) {
            let j = choose|j: int| 0 <= j < after.len() && (#[trigger] after[j]).0 == x;
            assert(before[j].0 == x);
        }
        if m.dom().contains(x) {
            if x == k {
                assert(after[i].0 == k);
            } else {
                let j = choose|j: int| 0 <= j < before.len() && (#[trigger] before[j]).0 == x;
                assert(after[j].0 == x);
            }
        }
    }
    assert forall|x: Seq<char>| entries_map(after).dom().contains(x) implies entries_map(after)[x]
        == m[x] by {
        let j = choose|j: int| 0 <= j < after.len() && (#[trigger] after[j]).0 == x;
        assert(entries_map(after)[after[j].0] == after[j].1);
        if j == i {
            assert(x == k);
        } else {
            assert(after[j] == before[j]);
            assert(before[j].0 != k) by {
                if j < i {
                    assert(before[j].0 != before[i].0);
                } else {
                    assert(before[i].0 != before[j].0);
                }
            }
            assert(entries_map(before)[before[j].0] == before[j].1);
        }
    }
    assert(entries_map(after) =~= m);
}

impl Clone for Row {
    fn clone(&self) -> (r: Self)
        ensures
            r@ == self@,
    {
        proof {
            use_type_invariant(self);
        }
        let mut entries: Vec<(String, Json)> = Vec::new();
        for i in 0..self.entries.len()
            invariant
                entries@.len() == i,
                forall|k: int|
                    0 <= k < i ==> (#[trigger] entries@[k]).0@ == self.entries@[k].0@
                        && entries@[k].1@ == self.entries@[k].1@,
        {
            let name = self.entries[i].0.clone();
            let value = self.entries[i].1.clone();
            entries.push((name, value));
        }
        proof {
            assert(json::entry_views(entries@) =~= self.listed());
        }
        Row { entries }
    }
}

} // verus!
