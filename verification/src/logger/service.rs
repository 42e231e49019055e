//! Log records: texts that stand on one line, and fields.

use vstd::prelude::*;

use crate::text;

verus! {

// ---------------------------------------------------------------------------
// Texts on one line
// ---------------------------------------------------------------------------

/// A control character.
pub open spec fn is_control(c: char) -> bool {
    c <= '\u{1f}' || ('\u{7f}' <= c && c <= '\u{9f}')
}

/// A character that could end a line, or do something else than stand in it.
pub open spec fn breaks_line(c: char) -> bool {
    is_control(c) || c == '\u{2028}' || c == '\u{2029}'
}

/// A character as it stands in a log record.
pub open spec fn escaped_char(c: char) -> Seq<char> {
    if c == '\\' {
        seq!['\\', '\\']
    } else if c == '\n' {
        seq!['\\', 'n']
    } else if c == '\r' {
        seq!['\\', 'r']
    } else if c == '\t' {
        seq!['\\', 't']
    } else if breaks_line(c) {
        seq!['\\', 'u', '{'] + text::numeral(c as nat, 16) + seq!['}']
    } else {
        seq![c]
    }
}

/// A text as it stands in a log record.
pub open spec fn escaped(s: Seq<char>) -> Seq<char>
    decreases s.len(),
{
    if s.len() == 0 {
        Seq::empty()
    } else {
        escaped(s.drop_last()) + escaped_char(s.last())
    }
}

fn push_all(out: &mut String, s: &str)
    ensures
        final(out)@ == old(out)@ + s@,
{
    for c in it: s.chars()
        invariant
            it.seq() == s@,
            out@ == old(out)@ + s@.take(it.index()),
    {
        out.push(c);
        proof {
            assert(s@.take(it.index() + 1) =~= s@.take(it.index()).push(c));
        }
    }
    proof {
        assert(s@.take(s@.len() as int) =~= s@);
    }
}

fn push_escaped(out: &mut String, c: char)
    ensures
        final(out)@ == old(out)@ + escaped_char(c),
{
    let ghost before = out@;
    if c == '\\' {
        out.push('\\');
        out.push('\\');
    } else if c == '\n' {
        out.push('\\');
        out.push('n');
    } else if c == '\r' {
        out.push('\\');
        out.push('r');
    } else if c == '\t' {
        out.push('\\');
        out.push('t');
    } else if c <= '\u{1f}' || ('\u{7f}' <= c && c <= '\u{9f}') || c == '\u{2028}' || c
        == '\u{2029}' {
        out.push('\\');
        out.push('u');
        out.push('{');
        push_all(out, text::hex_text(c as u64).as_str());
        out.push('}');
    } else {
        out.push(c);
    }
    proof {
        assert(out@ =~= before + escaped_char(c));
    }
}

/// Escapes `text` so that it stands on one line and reads as one record: a
/// backslash becomes two, a newline, a carriage return and a tab become `\n`,
/// `\r` and `\t`, and every other control character, and the line and paragraph
/// separators, become `\u{..}`.
pub fn escape_log_text(text: &str) -> (r: String)
    ensures
        r@ == escaped(text@),
{
    let mut out = String::new();
    proof {
        assert(text@.take(0) =~= Seq::empty());
    }
    for c in it: text.chars()
        invariant
            it.seq() == text@,
            out@ == escaped(text@.take(it.index())),
    {
        proof {
            assert(text@.take(it.index() + 1).drop_last() =~= text@.take(it.index()));
            assert(text@.take(it.index() + 1).last() == c);
        }
        push_escaped(&mut out, c);
    }
    proof {
        assert(text@.take(text@.len() as int) =~= text@);
    }
    out
}

proof fn lemma_hex_char(n: nat, i: int)
    requires
        0 <= i < text::numeral(n, 16).len(),
    ensures
        ('0' <= text::numeral(n, 16)[i] && text::numeral(n, 16)[i] <= '9') || ('a'
            <= text::numeral(n, 16)[i] && text::numeral(n, 16)[i] <= 'f'),
    decreases n,
{
    if n >= 16 {
        text::lemma_quotient_shrinks(n, 16);
        if i < text::numeral(n, 16).len() - 1 {
            lemma_hex_char(n / 16, i);
        }
    }
}

proof fn lemma_escaped_char_is_one_line(c: char, i: int)
    requires
        0 <= i < escaped_char(c).len(),
    ensures
        !breaks_line(escaped_char(c)[i]),
{
    if c != '\\' && c != '\n' && c != '\r' && c != '\t' && breaks_line(c) {
        let hex = text::numeral(c as nat, 16);
        if 3 <= i < 3 + hex.len() {
            lemma_hex_char(c as nat, i - 3);
            assert(escaped_char(c)[i] == hex[i - 3]);
        }
    }
}

/// An escaped text stands on one line: nothing in it ends a line, and no
/// control character is left in it.
pub proof fn escaped_text_is_one_line(s: Seq<char>, i: int)
    requires
        0 <= i < escaped(s).len(),
    ensures
        !breaks_line(escaped(s)[i]),
    decreases s.len(),
{
    let head = escaped(s.drop_last());
    if i < head.len() {
        escaped_text_is_one_line(s.drop_last(), i);
    } else {
        lemma_escaped_char_is_one_line(s.last(), i - head.len());
    }
}

proof fn lemma_escaped_front(s: Seq<char>)
    requires
        s.len() > 0,
    ensures
        escaped(s) == escaped_char(s[0]) + escaped(s.skip(1)),
    decreases s.len(),
{
    if s.len() == 1 {
        assert(s.drop_last() =~= Seq::empty());
        assert(s.skip(1) =~= Seq::empty());
        assert(escaped(s) =~= escaped_char(s[0]) + escaped(s.skip(1)));
    } else {
        lemma_escaped_front(s.drop_last());
        assert(s.drop_last().skip(1) =~= s.skip(1).drop_last());
        assert(s.skip(1).last() == s.last());
        assert(escaped(s) =~= escaped_char(s[0]) + escaped(s.skip(1)));
    }
}

proof fn lemma_numeral_injective(n: nat, m: nat)
    requires
        text::numeral(n, 16) == text::numeral(m, 16),
    ensures
        n == m,
    decreases n,
{
    let a = text::numeral(n, 16);
    let b = text::numeral(m, 16);
    if n < 16 {
        assert(a.len() == 1);
        if m >= 16 {
            text::lemma_quotient_shrinks(m, 16);
            lemma_numeral_not_empty(m / 16);
            assert(b.len() >= 2);
        }
        assert(a[0] == text::digit(n) && b[0] == text::digit(m));
    } else {
        text::lemma_quotient_shrinks(n, 16);
        lemma_numeral_not_empty(n / 16);
        assert(a.len() >= 2);
        assert(m >= 16);
        text::lemma_quotient_shrinks(m, 16);
        assert(a.drop_last() =~= text::numeral(n / 16, 16));
        assert(b.drop_last() =~= text::numeral(m / 16, 16));
        lemma_numeral_injective(n / 16, m / 16);
        assert(a.last() == text::digit(n % 16) && b.last() == text::digit(m % 16));
        assert(n % 16 == m % 16);
    }
}

proof fn lemma_numeral_not_empty(n: nat)
    ensures
        text::numeral(n, 16).len() >= 1,
{
    if n >= 16 {
        text::lemma_quotient_shrinks(n, 16);
    }
}

/// The escapes of two characters that both start the same text are those of
/// one character.
proof fn lemma_escaped_char_prefix(c: char, d: char, x: Seq<char>, y: Seq<char>)
    requires
        escaped_char(c) + x == escaped_char(d) + y,
    ensures
        c == d,
{
    let a = escaped_char(c);
    let b = escaped_char(d);
    let all = a + x;
    assert(a.len() >= 1 && b.len() >= 1);
    assert(all[0] == a[0] && all[0] == b[0]);
    if c == '\\' || breaks_line(c) {
        assert(a.len() >= 2 && a[0] == '\\');
        assert(d == '\\' || breaks_line(d));
        assert(b.len() >= 2);
        assert(all[1] == a[1] && all[1] == b[1]);
        if a[1] == 'u' {
            let p = text::numeral(c as nat, 16);
            let q = text::numeral(d as nat, 16);
            assert(a =~= seq!['\\', 'u', '{'] + p + seq!['}']);
            assert(b =~= seq!['\\', 'u', '{'] + q + seq!['}']);
            assert(a[(3 + p.len()) as int] == '}');
            assert(b[(3 + q.len()) as int] == '}');
            if p.len() < q.len() {
                assert(all[(3 + p.len()) as int] == '}');
                assert(b[(3 + p.len()) as int] == q[p.len() as int]);
                lemma_hex_char(d as nat, p.len() as int);
            }
            if q.len() < p.len() {
                assert(all[(3 + q.len()) as int] == '}');
                assert(a[(3 + q.len()) as int] == p[q.len() as int]);
                lemma_hex_char(c as nat, q.len() as int);
            }
            assert forall|i: int| 0 <= i < p.len() implies p[i] == q[i] by {
                assert(a[3 + i] == p[i]);
                assert(b[3 + i] == q[i]);
                assert(all[3 + i] == a[3 + i]);
            }
            assert(p =~= q);
            lemma_numeral_injective(c as nat, d as nat);
        }
    }
}

/// Escaping is unambiguous: two texts that are escaped to the same were the
/// same.
pub proof fn escaping_is_unambiguous(a: Seq<char>, b: Seq<char>)
    requires
        escaped(a) == escaped(b),
    ensures
        a == b,
    decreases a.len(),
{
    if a.len() > 0 {
        lemma_escaped_front(a);
    }
    if b.len() > 0 {
        lemma_escaped_front(b);
    }
    if a.len() == 0 {
        if b.len() > 0 {
            assert(escaped(b).len() > 0);
        }
        assert(a =~= b);
    } else {
        assert(escaped(a).len() > 0);
        assert(b.len() > 0);
        let x = escaped(a.skip(1));
        let y = escaped(b.skip(1));
        lemma_escaped_char_prefix(a[0], b[0], x, y);
        let all = escaped(a);
        let n = escaped_char(a[0]).len() as int;
        assert(x =~= all.skip(n));
        assert(y =~= all.skip(n));
        escaping_is_unambiguous(a.skip(1), b.skip(1));
        assert(a =~= seq![a[0]] + a.skip(1));
        assert(b =~= seq![b[0]] + b.skip(1));
    }
}

// ---------------------------------------------------------------------------
// Fields
// ---------------------------------------------------------------------------

/// A named value in a log record.
#[derive(Debug, Clone, PartialEq, Eq)]
pub struct Field {
    pub key: String,
    pub value: FieldValue,
}

/// The value of a field.
#[derive(Debug, Clone, PartialEq, Eq)]
pub enum FieldValue {
    String(String),
    Int(i64),
    /// A real number, in its shortest decimal form.
    Float(String),
    Bool(bool),
    /// What an error says.
    Error(String),
    /// What any other value says.
    Any(String),
}

impl FieldValue {
    /// This value as text.
    pub open spec fn rendering(&self) -> Seq<char> {
        match self {
            FieldValue::String(s) => s@,
            FieldValue::Int(i) => text::decimal(*i as int),
            FieldValue::Float(f) => f@,
            FieldValue::Bool(b) => if *b {
                "true"@
            } else {
                "false"@
            },
            FieldValue::Error(e) => e@,
            FieldValue::Any(a) => a@,
        }
    }

    /// This value as text.
    pub fn to_string(&self) -> (r: String)
        ensures
            r@ == self.rendering(),
    {
        match self {
            FieldValue::String(s) => s.clone(),
            FieldValue::Int(i) => text::i64_text(*i),
            FieldValue::Float(f) => f.clone(),
            FieldValue::Bool(b) => if *b {
                "true".to_owned()
            } else {
                "false".to_owned()
            },
            FieldValue::Error(e) => e.clone(),
            FieldValue::Any(a) => a.clone(),
        }
    }
}

/// A field that holds a text.
pub fn string(key: &str, value: &str) -> (r: Field)
    ensures
        r.key@ == key@,
        r.value matches FieldValue::String(s) && s@ == value@,
{
    Field { key: key.to_owned(), value: FieldValue::String(value.to_owned()) }
}

/// A field that holds an integer.
pub fn integer(key: &str, value: i64) -> (r: Field)
    ensures
        r.key@ == key@,
        r.value == FieldValue::Int(value),
{
    Field { key: key.to_owned(), value: FieldValue::Int(value) }
}

/// A field that holds a real number, given in its shortest decimal form.
pub fn float(key: &str, value: String) -> (r: Field)
    ensures
        r.key@ == key@,
        r.value == FieldValue::Float(value),
{
    Field { key: key.to_owned(), value: FieldValue::Float(value) }
}

/// A field that holds a truth value.
pub fn bool_field(key: &str, value: bool) -> (r: Field)
    ensures
        r.key@ == key@,
        r.value == FieldValue::Bool(value),
{
    Field { key: key.to_owned(), value: FieldValue::Bool(value) }
}

/// The field that holds what an error says.
pub fn err(error: &str) -> (r: Field)
    ensures
        r.key@ == "error"@,
        r.value matches FieldValue::Error(s) && s@ == error@,
{
    Field { key: "error".to_owned(), value: FieldValue::Error(error.to_owned()) }
}

/// A field that holds what any other value says.
pub fn any(key: &str, value: &str) -> (r: Field)
    ensures
        r.key@ == key@,
        r.value matches FieldValue::Any(s) && s@ == value@,
{
    Field { key: key.to_owned(), value: FieldValue::Any(value.to_owned()) }
}

/// Nothing in a text needs to be escaped: it has no backslash and no character
/// that breaks a line.
pub open spec fn plain(s: Seq<char>) -> bool {
    forall|i: int| 0 <= i < s.len() ==> #[trigger] s[i] != '\\' && !breaks_line(s[i])
}

/// A text in which nothing needs to be escaped stays as it is.
pub proof fn plain_text_stays(s: Seq<char>)
    requires
        plain(s),
    ensures
        escaped(s) == s,
    decreases s.len(),
{
    if s.len() > 0 {
        let init = s.drop_last();
        assert forall|i: int| 0 <= i < init.len() implies #[trigger] init[i] != '\\'
            && !breaks_line(init[i]) by {
            assert(s[i] == init[i]);
        }
        plain_text_stays(init);
        assert(s[s.len() - 1] != '\\');
        assert(s =~= init.push(s.last()));
        assert(escaped(s) =~= s);
    }
}

/// Texts that follow each other are escaped one by one.
pub proof fn escaping_goes_character_by_character(a: Seq<char>, b: Seq<char>)
    ensures
        escaped(a + b) == escaped(a) + escaped(b),
    decreases b.len(),
{
    if b.len() == 0 {
        assert(a + b =~= a);
        assert(escaped(a) + escaped(b) =~= escaped(a));
    } else {
        assert((a + b).drop_last() =~= a + b.drop_last());
        escaping_goes_character_by_character(a, b.drop_last());
        assert(escaped(a + b) =~= escaped(a) + escaped(b));
    }
}

} // verus!
