//! JSON values as the library reads them.
//!
//! A number that fits in a signed 64-bit integer is an [`Json::Int`]. Any other
//! number (a fraction, or an integer past that range) is a [`Json::Real`],
//! which holds, as plain values, everything that is ever read of it.

use vstd::prelude::*;

use crate::double;
use crate::text;

verus! {

/// A JSON number that is not a signed 64-bit integer.
#[derive(Debug, PartialEq, Eq)]
pub struct RealNumber {
    /// The number as JSON text.
    pub text: String,
    /// The number as a double-precision float, in its shortest decimal form
    /// (`2` where the JSON text is `2.0`).
    pub display: String,
    /// The number rounded toward zero, held to the signed 64-bit range.
    pub truncated: i64,
    /// The number itself, where it is an unsigned 64-bit integer.
    pub unsigned: Option<u64>,
    /// The bits of the number as a double-precision float.
    pub bits: u64,
}

/// A [`RealNumber`], with its texts as characters.
pub struct RealView {
    pub text: Seq<char>,
    pub display: Seq<char>,
    pub truncated: i64,
    pub unsigned: Option<u64>,
    pub bits: u64,
}

impl View for RealNumber {
    type V = RealView;

    open spec fn view(&self) -> RealView {
        RealView {
            text: self.text@,
            display: self.display@,
            truncated: self.truncated,
            unsigned: self.unsigned,
            bits: self.bits,
        }
    }
}

impl Clone for RealNumber {
    fn clone(&self) -> (r: Self)
        ensures
            r@ == self@,
    {
        RealNumber {
            text: self.text.clone(),
            display: self.display.clone(),
            truncated: self.truncated,
            unsigned: self.unsigned,
            bits: self.bits,
        }
    }
}

/// A JSON value. An object's entries stand in the order of their keys.
#[derive(Debug, PartialEq, Eq)]
pub enum Json {
    Null,
    Bool(bool),
    Int(i64),
    Real(RealNumber),
    Str(String),
    Array(Vec<Json>),
    Object(Vec<(String, Json)>),
}

/// A JSON value as mathematics: its texts are sequences of characters.
pub enum JsonView {
    Null,
    Bool(bool),
    Int(i64),
    Real(RealView),
    Str(Seq<char>),
    Array(Seq<JsonView>),
    Object(Seq<(Seq<char>, JsonView)>),
}

/// What a JSON value says, item by item and entry by entry.
pub open spec fn json_view(j: Json) -> JsonView
    decreases j,
{
    match j {
        Json::Null => JsonView::Null,
        Json::Bool(b) => JsonView::Bool(b),
        Json::Int(i) => JsonView::Int(i),
        Json::Real(n) => JsonView::Real(n@),
        Json::Str(s) => JsonView::Str(s@),
        Json::Array(v) => JsonView::Array(
            Seq::new(
                v@.len(),
                |i: int|
                    if 0 <= i < v@.len() {
                        json_view(v@[i])
                    } else {
                        JsonView::Null
                    },
            ),
        ),
        Json::Object(v) => JsonView::Object(
            Seq::new(
                v@.len(),
                |i: int|
                    if 0 <= i < v@.len() {
                        (v@[i].0@, json_view(v@[i].1))
                    } else {
                        (Seq::empty(), JsonView::Null)
                    },
            ),
        ),
    }
}

impl View for Json {
    type V = JsonView;

    open spec fn view(&self) -> JsonView {
        json_view(*self)
    }
}

/// The entries of an object, as mathematics.
pub open spec fn entry_views(v: Seq<(String, Json)>) -> Seq<(Seq<char>, JsonView)> {
    v.map_values(|e: (String, Json)| (e.0@, e.1@))
}

/// The view of an array is the array of its items' views, and of an object
/// the object of its entries' views.
pub proof fn lemma_view_of_children(j: Json)
    ensures
        j matches Json::Array(v) ==> j@ == JsonView::Array(text::views(v@)),
        j matches Json::Object(v) ==> j@ == JsonView::Object(entry_views(v@)),
{
    reveal_with_fuel(json_view, 2);
    match j {
        Json::Array(v) => {
            assert(j@->Array_0 =~= text::views(v@));
        },
        Json::Object(v) => {
            assert(j@->Object_0 =~= entry_views(v@));
        },
        _ => {},
    }
}

impl Clone for Json {
    fn clone(&self) -> (r: Self)
        ensures
            r@ == self@,
        decreases *self,
    {
        match self {
            Json::Null => Json::Null,
            Json::Bool(b) => Json::Bool(*b),
            Json::Int(i) => Json::Int(*i),
            Json::Real(n) => Json::Real(n.clone()),
            Json::Str(s) => Json::Str(s.clone()),
            Json::Array(v) => {
                let mut out: Vec<Json> = Vec::new();
                for i in 0..v.len()
                    invariant
                        out@.len() == i,
                        *self == Json::Array(*v),
                        forall|k: int| 0 <= k < i ==> #[trigger] out@[k]@ == v@[k]@,
                {
                    proof {
                        assert(decreases_to!(self->Array_0 => self->Array_0@));
                        assert(decreases_to!(self->Array_0@ => self->Array_0@[i as int]));
                    }
                    let item = v[i].clone();
                    out.push(item);
                }
                let r = Json::Array(out);
                proof {
                    lemma_view_of_children(r);
                    lemma_view_of_children(*self);
                    assert(text::views(out@) =~= text::views(v@));
                }
                r
            },
            Json::Object(v) => {
                let mut out: Vec<(String, Json)> = Vec::new();
                for i in 0..v.len()
                    invariant
                        out@.len() == i,
                        *self == Json::Object(*v),
                        forall|k: int|
                            0 <= k < i ==> (#[trigger] out@[k]).0@ == v@[k].0@ && out@[k].1@
                                == v@[k].1@,
                {
                    let key = v[i].0.clone();
                    proof {
                        assert(decreases_to!(self->Object_0 => self->Object_0@));
                        assert(decreases_to!(self->Object_0@ => self->Object_0@[i as int]));
                        assert(decreases_to!(self->Object_0@[i as int] => self->Object_0@[i as int].1));
                    }
                    let item = v[i].1.clone();
                    out.push((key, item));
                }
                let r = Json::Object(out);
                proof {
                    lemma_view_of_children(r);
                    lemma_view_of_children(*self);
                    assert(entry_views(out@) =~= entry_views(v@));
                }
                r
            },
        }
    }
}

// ---------------------------------------------------------------------------
// Reading a value
// ---------------------------------------------------------------------------

impl JsonView {
    /// The integer this value is, where it is one and fits.
    pub open spec fn signed(self) -> Option<i64> {
        match self {
            JsonView::Int(i) => Some(i),
            _ => None,
        }
    }

    /// The unsigned integer this value is, where it is one and fits.
    pub open spec fn unsigned(self) -> Option<u64> {
        match self {
            JsonView::Int(i) => if i >= 0 {
                Some(i as u64)
            } else {
                None
            },
            JsonView::Real(n) => n.unsigned,
            _ => None,
        }
    }
}

/// Two numbers that are no signed 64-bit integers are equal: as integers, or
/// as doubles, of which zero equals zero of the other sign.
pub open spec fn real_equal(a: RealView, b: RealView) -> bool {
    a.unsigned == b.unsigned && (a.unsigned is Some || double::equal(a.bits, b.bits))
}

/// Two values are equal, item by item and entry by entry.
pub open spec fn json_equal(a: JsonView, b: JsonView) -> bool
    decreases a,
{
    match (a, b) {
        (JsonView::Null, JsonView::Null) => true,
        (JsonView::Bool(x), JsonView::Bool(y)) => x == y,
        (JsonView::Int(x), JsonView::Int(y)) => x == y,
        (JsonView::Real(x), JsonView::Real(y)) => real_equal(x, y),
        (JsonView::Str(x), JsonView::Str(y)) => x == y,
        (JsonView::Array(x), JsonView::Array(y)) => x.len() == y.len() && forall|i: int|
            0 <= i < x.len() ==> json_equal(#[trigger] x[i], y[i]),
        (JsonView::Object(x), JsonView::Object(y)) => x.len() == y.len() && forall|i: int|
            0 <= i < x.len() ==> (#[trigger] x[i]).0 == y[i].0 && json_equal(x[i].1, y[i].1),
        _ => false,
    }
}

impl Json {
    /// The text, where this is a string.
    pub fn as_str(&self) -> (r: Option<&str>)
        ensures
            match r {
                Some(s) => self@ == JsonView::Str(s@),
                None => !(self@ is Str),
            },
    {
        match self {
            Json::Str(s) => Some(s.as_str()),
            _ => None,
        }
    }

    /// The integer, where this is a number that fits in signed 64 bits.
    pub fn as_i64(&self) -> (r: Option<i64>)
        ensures
            r == self@.signed(),
    {
        match self {
            Json::Int(i) => Some(*i),
            _ => None,
        }
    }

    /// The integer, where this is a number that fits in unsigned 64 bits.
    pub fn as_u64(&self) -> (r: Option<u64>)
        ensures
            r == self@.unsigned(),
    {
        match self {
            Json::Int(i) => if *i >= 0 {
                Some(*i as u64)
            } else {
                None
            },
            Json::Real(n) => n.unsigned,
            _ => None,
        }
    }

    /// Whether this and `other` are equal.
    pub fn same(&self, other: &Json) -> (r: bool)
        ensures
            r == json_equal(self@, other@),
        decreases *self,
    {
        proof {
            reveal_with_fuel(json_view, 2);
            lemma_view_of_children(*self);
            lemma_view_of_children(*other);
        }
        match (self, other) {
            (Json::Null, Json::Null) => true,
            (Json::Bool(a), Json::Bool(b)) => *a == *b,
            (Json::Int(a), Json::Int(b)) => *a == *b,
            (Json::Real(a), Json::Real(b)) => match (a.unsigned, b.unsigned) {
                (Some(m), Some(n)) => m == n,
                (None, None) => double::same(a.bits, b.bits),
                _ => false,
            },
            (Json::Str(a), Json::Str(b)) => text::same(a, b),
            (Json::Array(a), Json::Array(b)) => {
                proof {
                    lemma_view_of_children(*self);
                    lemma_view_of_children(*other);
                    assert(text::views(a@).len() == a@.len());
                    assert(text::views(b@).len() == b@.len());
                }
                if a.len() != b.len() {
                    return false;
                }
                for i in 0..a.len()
                    invariant
                        *self == Json::Array(*a),
                        self@ == JsonView::Array(text::views(a@)),
                        other@ == JsonView::Array(text::views(b@)),
                        a@.len() == b@.len(),
                        forall|k: int|
                            0 <= k < i ==> json_equal(
                                #[trigger] text::views(a@)[k],
                                text::views(b@)[k],
                            ),
                {
                    proof {
                        assert(decreases_to!(self->Array_0 => self->Array_0@));
                        assert(decreases_to!(self->Array_0@ => self->Array_0@[i as int]));
                        assert(text::views(a@)[i as int] == a@[i as int]@);
                        assert(text::views(b@)[i as int] == b@[i as int]@);
                    }
                    if !a[i].same(&b[i]) {
                        return false;
                    }
                }
                true
            },
            (Json::Object(a), Json::Object(b)) => {
                proof {
                    lemma_view_of_children(*self);
                    lemma_view_of_children(*other);
                    assert(entry_views(a@).len() == a@.len());
                    assert(entry_views(b@).len() == b@.len());
                }
                if a.len() != b.len() {
                    return false;
                }
                for i in 0..a.len()
                    invariant
                        *self == Json::Object(*a),
                        self@ == JsonView::Object(entry_views(a@)),
                        other@ == JsonView::Object(entry_views(b@)),
                        a@.len() == b@.len(),
                        forall|k: int|
                            0 <= k < i ==> (#[trigger] entry_views(a@)[k]).0 == entry_views(b@)[k].0
                                && json_equal(entry_views(a@)[k].1, entry_views(b@)[k].1),
                {
                    proof {
                        assert(decreases_to!(self->Object_0 => self->Object_0@));
                        assert(decreases_to!(self->Object_0@ => self->Object_0@[i as int]));
                        assert(decreases_to!(self->Object_0@[i as int] => self->Object_0@[i as int].1));
                        assert(entry_views(a@)[i as int] == (a@[i as int].0@, a@[i as int].1@));
                        assert(entry_views(b@)[i as int] == (b@[i as int].0@, b@[i as int].1@));
                    }
                    if !text::same(&a[i].0, &b[i].0) || !a[i].1.same(&b[i].1) {
                        return false;
                    }
                }
                true
            },
            _ => false,
        }
    }

    /// Whether this is `null`.
    pub fn is_null(&self) -> (r: bool)
        ensures
            r == (self@ is Null),
    {
        match self {
            Json::Null => true,
            _ => false,
        }
    }
}

// ---------------------------------------------------------------------------
// JSON text
// ---------------------------------------------------------------------------

/// A character as it stands in a JSON string literal: the quote, the backslash
/// and the control characters below the space are escaped, those without a
/// short escape by their number.
pub open spec fn json_escaped(c: char) -> Seq<char> {
    if c == '"' || c == '\\' {
        seq!['\\', c]
    } else if c == '\u{8}' {
        seq!['\\', 'b']
    } else if c == '\t' {
        seq!['\\', 't']
    } else if c == '\n' {
        seq!['\\', 'n']
    } else if c == '\u{c}' {
        seq!['\\', 'f']
    } else if c == '\r' {
        seq!['\\', 'r']
    } else if (c as u32) < 32 {
        seq!['\\', 'u', '0', '0', text::digit(c as nat / 16), text::digit(c as nat % 16)]
    } else {
        seq![c]
    }
}

/// The characters of a text, each as it stands in a JSON string literal.
pub open spec fn json_escapes(s: Seq<char>) -> Seq<char>
    decreases s.len(),
{
    if s.len() == 0 {
        Seq::empty()
    } else {
        json_escapes(s.drop_last()) + json_escaped(s.last())
    }
}

/// The JSON string literal that stands for a text.
pub open spec fn json_quoted(s: Seq<char>) -> Seq<char> {
    seq!['"'] + json_escapes(s) + seq!['"']
}

/// `serde_json::to_string` of a `str` renders it as a JSON string literal, with
/// short escapes where there are some, and never fails.
#[verifier::external_body]
fn quote(s: &str) -> (r: String)
    ensures
        r@ == json_quoted(s@),
{
    serde_json::to_string(s).unwrap_or_default()
}

/// The items of an array, rendered and separated by commas.
pub open spec fn compact_items(v: Seq<JsonView>) -> Seq<char>
    decreases v,
{
    if v.len() == 0 {
        Seq::empty()
    } else if v.len() == 1 {
        compact(v[0])
    } else {
        compact_items(v.drop_last()) + seq![','] + compact(v[v.len() - 1])
    }
}

/// The entries of an object, rendered and separated by commas.
pub open spec fn compact_entries(v: Seq<(Seq<char>, JsonView)>) -> Seq<char>
    decreases v,
{
    if v.len() == 0 {
        Seq::empty()
    } else if v.len() == 1 {
        json_quoted(v[0].0) + seq![':'] + compact(v[0].1)
    } else {
        compact_entries(v.drop_last()) + seq![','] + (json_quoted(v[v.len() - 1].0) + seq![':']
            + compact(v[v.len() - 1].1))
    }
}

/// A value as JSON text without white space.
pub open spec fn compact(j: JsonView) -> Seq<char>
    decreases j,
{
    match j {
        JsonView::Null => "null"@,
        JsonView::Bool(b) => if b {
            "true"@
        } else {
            "false"@
        },
        JsonView::Int(i) => text::decimal(i as int),
        JsonView::Real(n) => n.text,
        JsonView::Str(s) => json_quoted(s),
        JsonView::Array(v) => seq!['['] + compact_items(v) + seq![']'],
        JsonView::Object(v) => seq!['{'] + compact_entries(v) + seq!['}'],
    }
}

impl Json {
    /// This value as JSON text without white space.
    pub fn to_text(&self) -> (r: String)
        ensures
            r@ == compact(self@),
        decreases *self,
    {
        match self {
            Json::Null => "null".to_owned(),
            Json::Bool(b) => if *b {
                "true".to_owned()
            } else {
                "false".to_owned()
            },
            Json::Int(i) => text::i64_text(*i),
            Json::Real(n) => n.text.clone(),
            Json::Str(s) => quote(s.as_str()),
            Json::Array(v) => {
                let mut out = String::new();
                out.push('[');
                let ghost items = text::views(v@);
                proof {
                    assert(items.take(0) =~= Seq::empty());
                    assert(out@ =~= seq!['['] + compact_items(items.take(0)));
                }
                for i in 0..v.len()
                    invariant
                        *self == Json::Array(*v),
                        items == text::views(v@),
                        out@ == seq!['['] + compact_items(items.take(i as int)),
                {
                    proof {
                        assert(decreases_to!(self->Array_0 => self->Array_0@));
                        assert(decreases_to!(self->Array_0@ => self->Array_0@[i as int]));
                        let next = items.take(i + 1);
                        assert(next.drop_last() =~= items.take(i as int));
                        assert(next[next.len() - 1] == v@[i as int]@);
                        if i == 0 {
                            assert(items.take(0) =~= Seq::empty());
                        }
                    }
                    if i > 0 {
                        out.push(',');
                    }
                    let item = v[i].to_text();
                    out = out.concat(item.as_str());
                    proof {
                        assert(out@ =~= seq!['['] + compact_items(items.take(i + 1)));
                    }
                }
                out.push(']');
                proof {
                    lemma_view_of_children(*self);
                    assert(items.take(v@.len() as int) =~= items);
                    assert(out@ =~= seq!['['] + compact_items(items) + seq![']']);
                }
                out
            },
            Json::Object(v) => {
                let mut out = String::new();
                out.push('{');
                let ghost items = entry_views(v@);
                proof {
                    assert(items.take(0) =~= Seq::empty());
                    assert(out@ =~= seq!['{'] + compact_entries(items.take(0)));
                }
                for i in 0..v.len()
                    invariant
                        *self == Json::Object(*v),
                        items == entry_views(v@),
                        out@ == seq!['{'] + compact_entries(items.take(i as int)),
                {
                    proof {
                        assert(decreases_to!(self->Object_0 => self->Object_0@));
                        assert(decreases_to!(self->Object_0@ => self->Object_0@[i as int]));
                        assert(decreases_to!(self->Object_0@[i as int] => self->Object_0@[i as int].1));
                        let next = items.take(i + 1);
                        assert(next.drop_last() =~= items.take(i as int));
                        assert(next[next.len() - 1] == (v@[i as int].0@, v@[i as int].1@));
                        if i == 0 {
                            assert(items.take(0) =~= Seq::empty());
                        }
                    }
                    if i > 0 {
                        out.push(',');
                    }
                    let key = quote(v[i].0.as_str());
                    let item = v[i].1.to_text();
                    out = out.concat(key.as_str());
                    out.push(':');
                    out = out.concat(item.as_str());
                    proof {
                        assert(out@ =~= seq!['{'] + compact_entries(items.take(i + 1)));
                    }
                }
                out.push('}');
                proof {
                    lemma_view_of_children(*self);
                    assert(items.take(v@.len() as int) =~= items);
                    assert(out@ =~= seq!['{'] + compact_entries(items) + seq!['}']);
                }
                out
            },
        }
    }
}

// ---------------------------------------------------------------------------
// Values as they are shown in messages
// ---------------------------------------------------------------------------

/// Items as they are shown, separated.
pub open spec fn debug_items(v: Seq<JsonView>) -> Seq<char>
    decreases v,
{
    if v.len() == 0 {
        Seq::empty()
    } else if v.len() == 1 {
        debugged(v[0])
    } else {
        debug_items(v.drop_last()) + ", "@ + debugged(v[v.len() - 1])
    }
}

/// Entries as they are shown, separated.
pub open spec fn debug_entries(v: Seq<(Seq<char>, JsonView)>) -> Seq<char>
    decreases v,
{
    if v.len() == 0 {
        Seq::empty()
    } else if v.len() == 1 {
        text::debug_rendering(v[0].0) + ": "@ + debugged(v[0].1)
    } else {
        debug_entries(v.drop_last()) + ", "@ + (text::debug_rendering(v[v.len() - 1].0) + ": "@
            + debugged(v[v.len() - 1].1))
    }
}

/// A value as it is shown to a programmer: by the name of its kind.
pub open spec fn debugged(j: JsonView) -> Seq<char>
    decreases j,
{
    match j {
        JsonView::Null => "Null"@,
        JsonView::Bool(b) => if b {
            "Bool(true)"@
        } else {
            "Bool(false)"@
        },
        JsonView::Int(i) => "Number("@ + text::decimal(i as int) + ")"@,
        JsonView::Real(n) => "Number("@ + n.text + ")"@,
        JsonView::Str(s) => "String("@ + text::debug_rendering(s) + ")"@,
        JsonView::Array(v) => "Array ["@ + debug_items(v) + "]"@,
        JsonView::Object(v) => "Object {"@ + debug_entries(v) + "}"@,
    }
}

impl Json {
    /// This value as it is shown to a programmer.
    pub fn to_debug(&self) -> (r: String)
        ensures
            r@ == debugged(self@),
        decreases *self,
    {
        match self {
            Json::Null => "Null".to_owned(),
            Json::Bool(b) => if *b {
                "Bool(true)".to_owned()
            } else {
                "Bool(false)".to_owned()
            },
            Json::Int(i) => text::join3("Number(", text::i64_text(*i).as_str(), ")"),
            Json::Real(n) => text::join3("Number(", n.text.as_str(), ")"),
            Json::Str(s) => text::join3(
                "String(",
                text::debug_text(s.as_str()).as_str(),
                ")",
            ),
            Json::Array(v) => {
                let mut out = "Array [".to_owned();
                let ghost items = text::views(v@);
                proof {
                    assert(items.take(0) =~= Seq::empty());
                    assert(out@ =~= "Array ["@ + debug_items(items.take(0)));
                }
                for i in 0..v.len()
                    invariant
                        *self == Json::Array(*v),
                        items == text::views(v@),
                        out@ == "Array ["@ + debug_items(items.take(i as int)),
                {
                    proof {
                        assert(decreases_to!(self->Array_0 => self->Array_0@));
                        assert(decreases_to!(self->Array_0@ => self->Array_0@[i as int]));
                        let next = items.take(i + 1);
                        assert(next.drop_last() =~= items.take(i as int));
                        assert(next[next.len() - 1] == v@[i as int]@);
                        if i == 0 {
                            assert(items.take(0) =~= Seq::empty());
                        }
                    }
                    if i > 0 {
                        out = out.concat(", ");
                    }
                    let item = v[i].to_debug();
                    out = out.concat(item.as_str());
                    proof {
                        assert(out@ =~= "Array ["@ + debug_items(items.take(i + 1)));
                    }
                }
                out = out.concat("]");
                proof {
                    lemma_view_of_children(*self);
                    assert(items.take(v@.len() as int) =~= items);
                    assert(out@ =~= "Array ["@ + debug_items(items) + "]"@);
                }
                out
            },
            Json::Object(v) => {
                let mut out = "Object {".to_owned();
                let ghost items = entry_views(v@);
                proof {
                    assert(items.take(0) =~= Seq::empty());
                    assert(out@ =~= "Object {"@ + debug_entries(items.take(0)));
                }
                for i in 0..v.len()
                    invariant
                        *self == Json::Object(*v),
                        items == entry_views(v@),
                        out@ == "Object {"@ + debug_entries(items.take(i as int)),
                {
                    proof {
                        assert(decreases_to!(self->Object_0 => self->Object_0@));
                        assert(decreases_to!(self->Object_0@ => self->Object_0@[i as int]));
                        assert(decreases_to!(self->Object_0@[i as int] => self->Object_0@[i as int].1));
                        let next = items.take(i + 1);
                        assert(next.drop_last() =~= items.take(i as int));
                        assert(next[next.len() - 1] == (v@[i as int].0@, v@[i as int].1@));
                        if i == 0 {
                            assert(items.take(0) =~= Seq::empty());
                        }
                    }
                    if i > 0 {
                        out = out.concat(", ");
                    }
                    let key = text::debug_text(v[i].0.as_str());
                    let item = v[i].1.to_debug();
                    out = out.concat(key.as_str());
                    out = out.concat(": ");
                    out = out.concat(item.as_str());
                    proof {
                        assert(out@ =~= "Object {"@ + debug_entries(items.take(i + 1)));
                    }
                }
                out = out.concat("}");
                proof {
                    lemma_view_of_children(*self);
                    assert(items.take(v@.len() as int) =~= items);
                    assert(out@ =~= "Object {"@ + debug_entries(items) + "}"@);
                }
                out
            },
        }
    }
}

// ---------------------------------------------------------------------------
// serde_json values
// ---------------------------------------------------------------------------

/// `serde_json::Value`, a JSON document as that crate holds it.
#[verifier::external_type_specification]
#[verifier::external_body]
pub struct ExValue(serde_json::Value);

/// `serde_json::Error`, why a text is not JSON.
#[verifier::external_type_specification]
#[verifier::external_body]
pub struct ExJsonError(serde_json::Error);

/// What a `serde_json::Value` holds.
pub uninterp spec fn value_contents(v: serde_json::Value) -> JsonView;

/// The outermost layer of a `serde_json::Value`.
enum Layer {
    Null,
    Bool(bool),
    Int(i64),
    Real(RealNumber),
    Str(String),
    Array(Vec<serde_json::Value>),
    Object(Vec<(String, serde_json::Value)>),
}

/// What a layer and the values below it hold.
spec fn layer_contents(l: Layer) -> JsonView {
    match l {
        Layer::Null => JsonView::Null,
        Layer::Bool(b) => JsonView::Bool(b),
        Layer::Int(i) => JsonView::Int(i),
        Layer::Real(n) => JsonView::Real(n@),
        Layer::Str(s) => JsonView::Str(s@),
        Layer::Array(v) => JsonView::Array(
            v@.map_values(|x: serde_json::Value| value_contents(x)),
        ),
        Layer::Object(v) => JsonView::Object(
            v@.map_values(|e: (String, serde_json::Value)| (e.0@, value_contents(e.1))),
        ),
    }
}

/// Takes a `serde_json::Value` apart by its variant, moving what it holds. A
/// number is read with `serde_json::Number`'s `as_i64`, `as_u64`, `as_f64` (and
/// of that the bits, the text and the integer part) and `Display`. The layer
/// holds what the value held.
#[verifier::external_body]
fn open_value(value: serde_json::Value) -> (r: Layer)
    ensures
        value_contents(value) == layer_contents(r),
{
    match value {
        serde_json::Value::Null => Layer::Null,
        serde_json::Value::Bool(b) => Layer::Bool(b),
        serde_json::Value::Number(n) => match (n.as_i64(), n.as_f64().unwrap_or_default()) {
            (Some(i), _) => Layer::Int(i),
            (None, x) => Layer::Real(RealNumber {
                text: n.to_string(), unsigned: n.as_u64(), bits: x.to_bits(),
                display: x.to_string(), truncated: x as i64,
            }),
        },
        serde_json::Value::String(s) => Layer::Str(s),
        serde_json::Value::Array(v) => Layer::Array(v),
        serde_json::Value::Object(m) => Layer::Object(m.into_iter().collect()),
    }
}

/// What `serde_json` reads in a text: nothing where it is not one JSON value.
pub uninterp spec fn json_parsed(s: Seq<char>) -> Option<JsonView>;

/// `serde_json::from_str` reads a text as one JSON value. What it reads is
/// named, not spelled out.
#[verifier::external_body]
fn parse_value(s: &str) -> (r: Result<serde_json::Value, serde_json::Error>)
    ensures
        match r {
            Ok(v) => json_parsed(s@) == Some(value_contents(v)),
            Err(_) => json_parsed(s@) is None,
        },
{
    serde_json::from_str::<serde_json::Value>(s)
}

impl Json {
    /// The value that a `serde_json::Value` holds.
    pub fn from_value(value: serde_json::Value) -> (r: Self)
        ensures
            r@ == value_contents(value),
        decreases value_contents(value),
    {
        let ghost whole = value_contents(value);
        match open_value(value) {
            Layer::Null => Json::Null,
            Layer::Bool(b) => Json::Bool(b),
            Layer::Int(i) => Json::Int(i),
            Layer::Real(n) => Json::Real(n),
            Layer::Str(s) => Json::Str(s),
            Layer::Array(v) => {
                let ghost items = v@;
                let mut out: Vec<Json> = Vec::new();
                for x in it: v
                    invariant
                        whole == value_contents(value),
                        whole == JsonView::Array(
                            items.map_values(|x: serde_json::Value| value_contents(x)),
                        ),
                        it.seq() == items,
                        out@.len() == it.index(),
                        forall|k: int|
                            0 <= k < it.index() ==> #[trigger] out@[k]@ == value_contents(items[k]),
                {
                    proof {
                        let views = items.map_values(|x: serde_json::Value| value_contents(x));
                        assert(decreases_to!(whole => whole->Array_0));
                        assert(decreases_to!(whole->Array_0 => whole->Array_0[it.index()]));
                        assert(views[it.index()] == value_contents(x));
                    }
                    let item = Json::from_value(x);
                    out.push(item);
                }
                let r = Json::Array(out);
                proof {
                    lemma_view_of_children(r);
                    assert(text::views(out@) =~= items.map_values(
                        |x: serde_json::Value| value_contents(x),
                    ));
                }
                r
            },
            Layer::Object(v) => {
                let ghost items = v@;
                let mut out: Vec<(String, Json)> = Vec::new();
                for e in it: v
                    invariant
                        whole == value_contents(value),
                        whole == JsonView::Object(
                            items.map_values(
                                |e: (String, serde_json::Value)| (e.0@, value_contents(e.1)),
                            ),
                        ),
                        it.seq() == items,
                        out@.len() == it.index(),
                        forall|k: int|
                            0 <= k < it.index() ==> (#[trigger] out@[k]).0@ == items[k].0@
                                && out@[k].1@ == value_contents(items[k].1),
                {
                    proof {
                        let views = items.map_values(
                            |e: (String, serde_json::Value)| (e.0@, value_contents(e.1)),
                        );
                        assert(decreases_to!(whole => whole->Object_0));
                        assert(decreases_to!(whole->Object_0 => whole->Object_0[it.index()]));
                        assert(views[it.index()] == (e.0@, value_contents(e.1)));
                        assert(decreases_to!(views[it.index()] => views[it.index()].1));
                    }
                    let item = Json::from_value(e.1);
                    out.push((e.0, item));
                }
                let r = Json::Object(out);
                proof {
                    lemma_view_of_children(r);
                    assert(entry_views(out@) =~= items.map_values(
                        |e: (String, serde_json::Value)| (e.0@, value_contents(e.1)),
                    ));
                }
                r
            },
        }
    }
}

/// Reads a text as one JSON value; `None` where it is not one.
pub fn parse(s: &str) -> (r: Option<Json>)
    ensures
        text::opt_view(r) == json_parsed(s@),
{
    match parse_value(s) {
        Ok(v) => Some(Json::from_value(v)),
        Err(_) => None,
    }
}

/// Every value is equal to itself.
pub proof fn values_equal_themselves(a: JsonView)
    ensures
        json_equal(a, a),
    decreases a,
{
    match a {
        JsonView::Array(x) => {
            assert forall|i: int| 0 <= i < x.len() implies json_equal(#[trigger] x[i], x[i]) by {
                assert(decreases_to!(x => x[i]));
                values_equal_themselves(x[i]);
            }
        },
        JsonView::Object(x) => {
            assert forall|i: int| 0 <= i < x.len() implies (#[trigger] x[i]).0 == x[i].0
                && json_equal(x[i].1, x[i].1) by {
                assert(decreases_to!(x => x[i]));
                assert(decreases_to!(x[i] => x[i].1));
                values_equal_themselves(x[i].1);
            }
        },
        _ => {},
    }
}

/// Equality does not depend on which value comes first, and equal values are of
/// one kind; integers, texts and truth values are equal only where they are the
/// same.
pub proof fn equality_goes_both_ways(a: JsonView, b: JsonView)
    ensures
        json_equal(a, b) == json_equal(b, a),
        json_equal(a, b) && a is Int ==> b == a,
        json_equal(a, b) && a is Str ==> b == a,
        json_equal(a, b) && a is Bool ==> b == a,
        json_equal(a, b) && a is Null ==> b == a,
    decreases a,
{
    match (a, b) {
        (JsonView::Array(x), JsonView::Array(y)) => {
            if x.len() == y.len() {
                assert forall|i: int| 0 <= i < x.len() implies json_equal(#[trigger] x[i], y[i])
                    == json_equal(y[i], x[i]) by {
                    assert(decreases_to!(x => x[i]));
                    equality_goes_both_ways(x[i], y[i]);
                }
                if json_equal(a, b) {
                    assert forall|i: int| 0 <= i < y.len() implies json_equal(
                        #[trigger] y[i],
                        x[i],
                    ) by {
                        assert(json_equal(x[i], y[i]));
                    }
                }
                if json_equal(b, a) {
                    assert forall|i: int| 0 <= i < x.len() implies json_equal(
                        #[trigger] x[i],
                        y[i],
                    ) by {
                        assert(json_equal(y[i], x[i]));
                    }
                }
            }
        },
        (JsonView::Object(x), JsonView::Object(y)) => {
            if x.len() == y.len() {
                assert forall|i: int| 0 <= i < x.len() implies json_equal(
                    (#[trigger] x[i]).1,
                    y[i].1,
                ) == json_equal(y[i].1, x[i].1) by {
                    assert(decreases_to!(x => x[i]));
                    assert(decreases_to!(x[i] => x[i].1));
                    equality_goes_both_ways(x[i].1, y[i].1);
                }
                if json_equal(a, b) {
                    assert forall|i: int| 0 <= i < y.len() implies (#[trigger] y[i]).0 == x[i].0
                        && json_equal(y[i].1, x[i].1) by {
                        assert(x[i].0 == y[i].0);
                    }
                }
                if json_equal(b, a) {
                    assert forall|i: int| 0 <= i < x.len() implies (#[trigger] x[i]).0 == y[i].0
                        && json_equal(x[i].1, y[i].1) by {
                        assert(y[i].0 == x[i].0);
                    }
                }
            }
        },
        _ => {},
    }
}

/// An array of more items is rendered as that of the items before, a comma, and
/// the item; an object likewise. A rendered integer reads back.
pub proof fn rendering_goes_item_by_item(v: Seq<JsonView>, x: JsonView, n: i64)
    ensures
        v.len() > 0 ==> compact(JsonView::Array(v.push(x))) == compact(
            JsonView::Array(v),
        ).drop_last() + seq![','] + compact(x) + seq![']'],
        compact(JsonView::Array(seq![x])) == seq!['['] + compact(x) + seq![']'],
        compact(JsonView::Array(Seq::empty())) == seq!['[', ']'],
        n >= 0 ==> text::digits_value(compact(JsonView::Int(n))) == n,
{
    if n >= 0 {
        text::decimal_reads_back(n as nat);
    }
    if v.len() > 0 {
        let all = v.push(x);
        assert(all.drop_last() =~= v);
        assert(all[all.len() - 1] == x);
        let items = compact_items(v);
        assert(compact(JsonView::Array(v)) == seq!['['] + items + seq![']']);
        assert(compact(JsonView::Array(v)).drop_last() =~= seq!['['] + items);
        assert(compact_items(all) == items + seq![','] + compact(x));
        assert(compact(JsonView::Array(all)) =~= compact(JsonView::Array(v)).drop_last() + seq![',']
            + compact(x) + seq![']']);
    }
    assert(compact_items(seq![x]) == compact(x));
    assert(compact(JsonView::Array(Seq::empty())) =~= seq!['[', ']']);
}

} // verus!
