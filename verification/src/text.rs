//! Text primitives: ASCII case, substring search, character order, integer
//! rendering and parsing, and the pieces messages are put together from.
//!
//! A text is modelled as its sequence of characters.

use vstd::prelude::*;

verus! {

/// The views of a sequence of values, one by one.
pub open spec fn views<T: View>(s: Seq<T>) -> Seq<T::V> {
    s.map_values(|x: T| x@)
}

/// `std::string::String::push` appends the character it is given.
pub assume_specification[ std::string::String::push ](s: &mut std::string::String, c: char)
    ensures
        final(s)@ == old(s)@.push(c),
;

/// The views of an optional value.
pub open spec fn opt_view<T: View>(o: Option<T>) -> Option<T::V> {
    match o {
        Some(x) => Some(x@),
        None => None,
    }
}

// ---------------------------------------------------------------------------
// Building texts
// ---------------------------------------------------------------------------

/// The characters of `s`, in order.
pub fn chars_of(s: &str) -> (r: Vec<char>)
    ensures
        r@ == s@,
{
    let mut out: Vec<char> = Vec::new();
    for c in it: s.chars()
        invariant
            out@ == s@.take(it.index()),
            it.seq() == s@,
    {
        out.push(c);
        proof {
            assert(s@.take(it.index() + 1) =~= s@.take(it.index()).push(c));
        }
    }
    proof {
        assert(s@.take(s@.len() as int) =~= s@);
    }
    out
}

/// `a` followed by `b`.
pub fn join2(a: &str, b: &str) -> (r: String)
    ensures
        r@ == a@ + b@,
{
    a.to_owned().concat(b)
}

/// `a`, `b` and `c`, one after the other.
pub fn join3(a: &str, b: &str, c: &str) -> (r: String)
    ensures
        r@ == a@ + b@ + c@,
{
    a.to_owned().concat(b).concat(c)
}

/// Four texts, one after the other.
pub fn join4(a: &str, b: &str, c: &str, d: &str) -> (r: String)
    ensures
        r@ == a@ + b@ + c@ + d@,
{
    a.to_owned().concat(b).concat(c).concat(d)
}

/// Five texts, one after the other.
pub fn join5(a: &str, b: &str, c: &str, d: &str, e: &str) -> (r: String)
    ensures
        r@ == a@ + b@ + c@ + d@ + e@,
{
    a.to_owned().concat(b).concat(c).concat(d).concat(e)
}

/// A list of the same texts.
pub fn clone_strings(list: &Vec<String>) -> (r: Vec<String>)
    ensures
        views(r@) == views(list@),
{
    let mut out: Vec<String> = Vec::new();
    for i in 0..list.len()
        invariant
            out@.len() == i,
            forall|k: int| 0 <= k < i ==> #[trigger] out@[k]@ == list@[k]@,
    {
        out.push(list[i].clone());
    }
    proof {
        assert(views(out@) =~= views(list@));
    }
    out
}

/// Whether `a` and `b` are the same text.
pub fn same(a: &str, b: &str) -> (r: bool)
    ensures
        r == (a@ == b@),
{
    a.to_owned() == b.to_owned()
}

// ---------------------------------------------------------------------------
// ASCII case
// ---------------------------------------------------------------------------

/// An ASCII upper-case letter becomes its lower-case form; any other character
/// stays as it is.
pub open spec fn lower_char(c: char) -> char {
    if 'A' <= c && c <= 'Z' {
        (c as u8 + 32) as u8 as char
    } else {
        c
    }
}

/// `s` with its ASCII upper-case letters in lower case.
pub open spec fn lower(s: Seq<char>) -> Seq<char> {
    s.map_values(|c: char| lower_char(c))
}

fn char_to_ascii_lowercase(c: char) -> (r: char)
    ensures
        r == lower_char(c),
{
    if 'A' <= c && c <= 'Z' {
        (c as u8 + 32) as char
    } else {
        c
    }
}

/// `s` with its ASCII upper-case letters in lower case.
pub fn to_ascii_lowercase(s: &str) -> (r: String)
    ensures
        r@ == lower(s@),
{
    let mut out = String::new();
    for c in it: s.chars()
        invariant
            out@ == lower(s@.take(it.index())),
            it.seq() == s@,
    {
        proof {
            assert(s@.take(it.index() + 1) =~= s@.take(it.index()).push(c));
            assert(lower(s@.take(it.index() + 1)) =~= lower(s@.take(it.index())).push(
                lower_char(c),
            ));
        }
        out.push(char_to_ascii_lowercase(c));
    }
    proof {
        assert(s@.take(s@.len() as int) =~= s@);
    }
    out
}

/// Whether two texts are the same but for ASCII case.
pub fn eq_ignore_ascii_case(a: &str, b: &str) -> (r: bool)
    ensures
        r == (lower(a@) == lower(b@)),
{
    to_ascii_lowercase(a) == to_ascii_lowercase(b)
}

/// Lower-casing twice is lower-casing once.
pub proof fn lower_is_idempotent(s: Seq<char>)
    ensures
        lower(lower(s)) == lower(s),
{
    assert(lower(lower(s)) =~= lower(s));
}

// ---------------------------------------------------------------------------
// Substrings
// ---------------------------------------------------------------------------

/// `needle` stands in `hay` at position `at`.
pub open spec fn occurs_at(hay: Seq<char>, needle: Seq<char>, at: int) -> bool {
    0 <= at && at + needle.len() <= hay.len() && hay.subrange(at, at + needle.len()) == needle
}

/// `needle` stands somewhere in `hay`.
pub open spec fn occurs(hay: Seq<char>, needle: Seq<char>) -> bool {
    exists|at: int| occurs_at(hay, needle, at)
}

fn matches_at(hay: &Vec<char>, needle: &Vec<char>, at: usize) -> (r: bool)
    requires
        at + needle@.len() <= hay@.len(),
    ensures
        r == occurs_at(hay@, needle@, at as int),
{
    let end: usize = hay.len();
    let mut j: usize = 0;
    while j < needle.len()
        invariant
            end == hay@.len(),
            at + needle@.len() <= end,
            j <= needle@.len(),
            forall|k: int| 0 <= k < j ==> #[trigger] needle@[k] == hay@[at + k],
        decreases needle@.len() - j,
    {
        if hay[at + j] != needle[j] {
            proof {
                if hay@.subrange(at as int, at + needle@.len()) == needle@ {
                    assert(hay@.subrange(at as int, at + needle@.len())[j as int] == needle@[j as int]);
                }
            }
            return false;
        }
        j += 1;
    }
    proof {
        assert(hay@.subrange(at as int, at + needle@.len()) =~= needle@);
    }
    true
}

/// Whether `needle` stands somewhere in `hay`.
pub fn contains(hay: &str, needle: &str) -> (r: bool)
    ensures
        r == occurs(hay@, needle@),
{
    let h = chars_of(hay);
    let n = chars_of(needle);
    if n.len() > h.len() {
        return false;
    }
    let last: usize = h.len() - n.len();
    let mut at: usize = 0;
    while at <= last
        invariant
            last + n@.len() == h@.len(),
            at <= last + 1,
            h@ == hay@,
            n@ == needle@,
            forall|k: int| 0 <= k < at ==> !occurs_at(hay@, needle@, k),
        decreases last + 1 - at,
    {
        if matches_at(&h, &n, at) {
            return true;
        }
        if at == last {
            return false;
        }
        at += 1;
    }
    false
}

// ---------------------------------------------------------------------------
// Order
// ---------------------------------------------------------------------------

/// `a` comes before `b` in the order of their first differing characters, a
/// text before its own continuations. This is the order of their UTF-8 bytes.
pub open spec fn precedes(a: Seq<char>, b: Seq<char>) -> bool
    decreases a.len(),
{
    if b.len() == 0 {
        false
    } else if a.len() == 0 {
        true
    } else if a[0] != b[0] {
        a[0] < b[0]
    } else {
        precedes(a.skip(1), b.skip(1))
    }
}

/// Whether `a` comes before `b`.
pub fn is_before(a: &str, b: &str) -> (r: bool)
    ensures
        r == precedes(a@, b@),
{
    let x = chars_of(a);
    let y = chars_of(b);
    let mut i: usize = 0;
    proof {
        assert(a@.skip(0) =~= a@);
        assert(b@.skip(0) =~= b@);
    }
    while i < x.len() && i < y.len()
        invariant
            x@ == a@,
            y@ == b@,
            i <= x@.len(),
            i <= y@.len(),
            precedes(a@, b@) == precedes(a@.skip(i as int), b@.skip(i as int)),
        decreases x@.len() - i,
    {
        proof {
            assert(a@.skip(i as int).skip(1) =~= a@.skip(i + 1));
            assert(b@.skip(i as int).skip(1) =~= b@.skip(i + 1));
            assert(a@.skip(i as int)[0] == x@[i as int]);
            assert(b@.skip(i as int)[0] == y@[i as int]);
        }
        if x[i] != y[i] {
            return x[i] < y[i];
        }
        i += 1;
    }
    i < y.len()
}

/// No text comes before itself.
pub proof fn precedes_is_irreflexive(a: Seq<char>)
    ensures
        !precedes(a, a),
    decreases a.len(),
{
    if a.len() > 0 {
        precedes_is_irreflexive(a.skip(1));
    }
}

/// Of two different texts, one comes before the other.
pub proof fn precedes_is_total(a: Seq<char>, b: Seq<char>)
    requires
        a != b,
    ensures
        precedes(a, b) || precedes(b, a),
    decreases a.len(),
{
    if a.len() == 0 {
        if b.len() == 0 {
            assert(a =~= b);
        }
    } else if b.len() > 0 && a[0] == b[0] {
        if a.skip(1) == b.skip(1) {
            assert(a =~= seq![a[0]] + a.skip(1));
            assert(b =~= seq![b[0]] + b.skip(1));
        }
        precedes_is_total(a.skip(1), b.skip(1));
    }
}

/// What comes before a text that comes before a third comes before that third.
pub proof fn precedes_is_transitive(a: Seq<char>, b: Seq<char>, c: Seq<char>)
    requires
        precedes(a, b),
        precedes(b, c),
    ensures
        precedes(a, c),
    decreases a.len(),
{
    if a.len() > 0 && a[0] == b[0] && b[0] == c[0] {
        precedes_is_transitive(a.skip(1), b.skip(1), c.skip(1));
    }
}

// ---------------------------------------------------------------------------
// Integers
// ---------------------------------------------------------------------------

/// The digit `d` in a base of at most sixteen.
pub open spec fn digit(d: nat) -> char {
    if d < 10 {
        (48 + d) as u8 as char
    } else {
        (87 + d) as u8 as char
    }
}

/// `n` in the given base, without leading zeros.
pub open spec fn numeral(n: nat, base: nat) -> Seq<char>
    decreases n,
{
    if base < 2 {
        Seq::empty()
    } else if n < base {
        seq![digit(n)]
    } else {
        proof {
            lemma_quotient_shrinks(n, base);
        }
        numeral(n / base, base).push(digit(n % base))
    }
}

/// Dividing by a base of two or more makes a number smaller.
pub proof fn lemma_quotient_shrinks(n: nat, base: nat)
    requires
        2 <= base <= n,
    ensures
        n / base < n,
{
    assert(n / base < n) by (nonlinear_arith)
        requires
            2 <= base <= n,
    ;
}

/// `n` in base ten.
pub open spec fn decimal(n: int) -> Seq<char> {
    if n < 0 {
        seq!['-'] + numeral((-n) as nat, 10)
    } else {
        numeral(n as nat, 10)
    }
}

fn push_numeral(out: &mut String, n: u64, base: u64)
    requires
        2 <= base <= 16,
    ensures
        final(out)@ == old(out)@ + numeral(n as nat, base as nat),
    decreases n,
{
    if n >= base {
        proof {
            lemma_quotient_shrinks(n as nat, base as nat);
        }
        push_numeral(out, n / base, base);
    }
    let d: u64 = n % base;
    proof {
        assert(n < base ==> n % base == n) by (nonlinear_arith)
            requires
                2 <= base,
        ;
        assert(0 <= d < base);
    }
    let c: char = if d < 10 {
        (48u8 + d as u8) as char
    } else {
        (87u8 + d as u8) as char
    };
    out.push(c);
    proof {
        assert(c == digit(d as nat));
        if n < base {
            assert(out@ =~= old(out)@ + seq![digit(n as nat)]);
        } else {
            assert(out@ =~= old(out)@ + numeral((n / base) as nat, base as nat).push(
                digit(d as nat),
            ));
        }
    }
}

/// `n` in base ten.
pub fn u64_text(n: u64) -> (r: String)
    ensures
        r@ == decimal(n as int),
{
    let mut out = String::new();
    push_numeral(&mut out, n, 10);
    proof {
        assert(out@ =~= decimal(n as int));
    }
    out
}

/// `n` in base ten.
pub fn usize_text(n: usize) -> (r: String)
    ensures
        r@ == decimal(n as int),
{
    u64_text(n as u64)
}

/// `n` in base ten, with a minus sign where it is negative.
pub fn i64_text(n: i64) -> (r: String)
    ensures
        r@ == decimal(n as int),
{
    let mut out = String::new();
    if n < 0 {
        out.push('-');
        push_numeral(&mut out, (-(n as i128)) as u64, 10);
    } else {
        push_numeral(&mut out, n as u64, 10);
    }
    proof {
        assert(out@ =~= decimal(n as int));
    }
    out
}

/// `n` in base sixteen, in lower case.
pub fn hex_text(n: u64) -> (r: String)
    ensures
        r@ == numeral(n as nat, 16),
{
    let mut out = String::new();
    push_numeral(&mut out, n, 16);
    proof {
        assert(out@ =~= numeral(n as nat, 16));
    }
    out
}

/// An ASCII decimal digit.
pub open spec fn is_digit(c: char) -> bool {
    '0' <= c && c <= '9'
}

/// The value of a run of decimal digits, zero for the empty run.
pub open spec fn digits_value(s: Seq<char>) -> int
    decreases s.len(),
{
    if s.len() == 0 {
        0
    } else {
        digits_value(s.drop_last()) * 10 + (s.last() as int - 48)
    }
}

/// The digits of an unsigned integer's text: what stands behind an optional
/// plus sign.
pub open spec fn unsigned_digits(s: Seq<char>) -> Seq<char> {
    if s.len() > 0 && s[0] == '+' {
        s.skip(1)
    } else {
        s
    }
}

/// `s` is the text of an integer that fits in 64 unsigned bits: an optional
/// plus sign and at least one digit.
pub open spec fn is_u64_text(s: Seq<char>) -> bool {
    let digits = unsigned_digits(s);
    &&& digits.len() > 0
    &&& forall|i: int| 0 <= i < digits.len() ==> is_digit(#[trigger] digits[i])
    &&& digits_value(digits) <= u64::MAX
}

proof fn lemma_prefix_value(s: Seq<char>, n: int)
    requires
        0 <= n <= s.len(),
        forall|i: int| 0 <= i < s.len() ==> is_digit(#[trigger] s[i]),
    ensures
        0 <= digits_value(s.take(n)) <= digits_value(s),
    decreases s.len(),
{
    if n == s.len() {
        assert(s.take(n) =~= s);
        if s.len() > 0 {
            lemma_prefix_value(s.drop_last(), n - 1);
            assert(is_digit(s[s.len() - 1]));
        }
    } else {
        assert(s.drop_last().take(n) =~= s.take(n));
        lemma_prefix_value(s.drop_last(), n);
        assert(is_digit(s[s.len() - 1]));
    }
}

/// Reads an unsigned integer: an optional plus sign and at least one digit.
/// `None` for anything else and for a value past 64 bits.
pub fn parse_u64(s: &str) -> (r: Option<u64>)
    ensures
        r is Some == is_u64_text(s@),
        r is Some ==> r->0 == digits_value(unsigned_digits(s@)),
{
    let cs = chars_of(s);
    let start: usize = if cs.len() > 0 && cs[0] == '+' {
        1
    } else {
        0
    };
    let ghost digits = unsigned_digits(s@);
    proof {
        assert(digits =~= cs@.skip(start as int));
    }
    if start == cs.len() {
        return None;
    }
    let mut value: u64 = 0;
    let mut i: usize = start;
    proof {
        assert(digits.take(0) =~= Seq::empty());
    }
    while i < cs.len()
        invariant
            start <= i <= cs@.len(),
            start < cs@.len(),
            digits == cs@.skip(start as int),
            digits == unsigned_digits(s@),
            forall|k: int| 0 <= k < i - start ==> is_digit(#[trigger] digits[k]),
            value == digits_value(digits.take(i - start)),
        decreases cs@.len() - i,
    {
        let c = cs[i];
        assert(c == digits[i - start]);
        if !('0' <= c && c <= '9') {
            return None;
        }
        let d: u64 = (c as u32 - 48) as u64;
        let ghost next = digits.take(i - start + 1);
        proof {
            assert(next.drop_last() =~= digits.take(i - start));
            assert(digits_value(next) == value * 10 + d);
            if forall|k: int| 0 <= k < digits.len() ==> is_digit(#[trigger] digits[k]) {
                lemma_prefix_value(digits, i - start + 1);
            }
        }
        if value > u64::MAX / 10 {
            return None;
        }
        let tens: u64 = value * 10;
        if tens > u64::MAX - d {
            return None;
        }
        value = tens + d;
        i += 1;
    }
    proof {
        assert(digits.take(cs@.len() - start) =~= digits);
    }
    Some(value)
}

// ---------------------------------------------------------------------------
// White space
// ---------------------------------------------------------------------------

/// The characters with the Unicode `White_Space` property.
pub open spec fn is_space(c: char) -> bool {
    let u = c as u32;
    ||| 0x9 <= u <= 0xd
    ||| u == 0x20
    ||| u == 0x85
    ||| u == 0xa0
    ||| u == 0x1680
    ||| 0x2000 <= u <= 0x200a
    ||| u == 0x2028
    ||| u == 0x2029
    ||| u == 0x202f
    ||| u == 0x205f
    ||| u == 0x3000
}

fn char_is_space(c: char) -> (r: bool)
    ensures
        r == is_space(c),
{
    let u = c as u32;
    (0x9 <= u && u <= 0xd) || u == 0x20 || u == 0x85 || u == 0xa0 || u == 0x1680 || (0x2000 <= u && u
        <= 0x200a) || u == 0x2028 || u == 0x2029 || u == 0x202f || u == 0x205f || u == 0x3000
}

/// `inner` is `s` without the white space at its two ends.
pub open spec fn is_trim(s: Seq<char>, inner: Seq<char>) -> bool {
    exists|from: int, to: int| #[trigger] trims_to(s, inner, from, to)
}

/// `inner` is what `s` holds from `from` to `to`, only white space stands
/// outside, and none at the ends of `inner`.
pub open spec fn trims_to(s: Seq<char>, inner: Seq<char>, from: int, to: int) -> bool {
    &&& 0 <= from <= to <= s.len()
    &&& inner == s.subrange(from, to)
    &&& forall|i: int| 0 <= i < from ==> is_space(#[trigger] s[i])
    &&& forall|i: int| to <= i < s.len() ==> is_space(#[trigger] s[i])
    &&& inner.len() > 0 ==> !is_space(inner[0]) && !is_space(inner.last())
}

/// `s` without the white space at its two ends.
pub fn trim(s: &str) -> (r: String)
    ensures
        is_trim(s@, r@),
{
    let cs = chars_of(s);
    let mut from: usize = 0;
    while from < cs.len() && char_is_space(cs[from])
        invariant
            cs@ == s@,
            from <= cs@.len(),
            forall|i: int| 0 <= i < from ==> is_space(#[trigger] s@[i]),
        decreases cs@.len() - from,
    {
        from += 1;
    }
    let mut to: usize = cs.len();
    while to > from && char_is_space(cs[to - 1])
        invariant
            cs@ == s@,
            from <= to <= cs@.len(),
            from < cs@.len() ==> !is_space(s@[from as int]),
            forall|i: int| to <= i < s@.len() ==> is_space(#[trigger] s@[i]),
        decreases to,
    {
        to -= 1;
    }
    let inner = s.substring_char(from, to).to_owned();
    proof {
        assert(trims_to(s@, inner@, from as int, to as int));
    }
    inner
}

/// A text has exactly one trim.
pub proof fn trim_is_unique(s: Seq<char>, a: Seq<char>, b: Seq<char>)
    requires
        is_trim(s, a),
        is_trim(s, b),
    ensures
        a == b,
{
    let (f1, t1) = choose|from: int, to: int| #[trigger] trims_to(s, a, from, to);
    let (f2, t2) = choose|from: int, to: int| #[trigger] trims_to(s, b, from, to);
    if a.len() == 0 && b.len() == 0 {
        assert(a =~= b);
    } else if a.len() > 0 && b.len() > 0 {
        assert(a[0] == s[f1]);
        assert(b[0] == s[f2]);
        assert(a.last() == s[t1 - 1]);
        assert(b.last() == s[t2 - 1]);
        assert(f1 == f2);
        assert(t1 == t2);
    } else if a.len() > 0 {
        assert(a[0] == s[f1]);
        assert(is_space(s[f1]));
    } else {
        assert(b[0] == s[f2]);
        assert(is_space(s[f2]));
    }
}

// ---------------------------------------------------------------------------
// Renderings that std decides
// ---------------------------------------------------------------------------

/// What `{:?}` renders for a text: the text in double quotes, with the
/// escapes of `str`'s `Debug`.
pub uninterp spec fn debug_rendering(s: Seq<char>) -> Seq<char>;

/// `format!("{:?}", s)` renders a text by `str`'s `Debug`. The rendering is
/// named, not spelled out.
#[verifier::external_body]
pub(crate) fn debug_text(s: &str) -> (r: String)
    ensures
        r@ == debug_rendering(s@),
{
    format!("{:?}", s)
}

/// What `str::to_lowercase` makes of a text.
pub uninterp spec fn unicode_lowercase(s: Seq<char>) -> Seq<char>;

/// Every character is ASCII.
pub open spec fn all_ascii(s: Seq<char>) -> bool {
    forall|i: int| 0 <= i < s.len() ==> (#[trigger] s[i] as u32) < 128
}

/// `str::to_lowercase` lower-cases by the Unicode rules. The result is named,
/// not spelled out; of an ASCII text it is the ASCII lower-casing.
#[verifier::external_body]
pub(crate) fn to_lowercase(s: &str) -> (r: String)
    ensures
        r@ == unicode_lowercase(s@),
        all_ascii(s@) ==> r@ == lower(s@),
{
    s.to_lowercase()
}

/// What is written in base ten reads back as the number.
pub proof fn decimal_reads_back(n: nat)
    ensures
        digits_value(numeral(n, 10)) == n,
        numeral(n, 10).len() > 0,
        forall|i: int| 0 <= i < numeral(n, 10).len() ==> is_digit(#[trigger] numeral(n, 10)[i]),
        n <= u64::MAX ==> is_u64_text(decimal(n as int)) && digits_value(
            unsigned_digits(decimal(n as int)),
        ) == n,
    decreases n,
{
    let s = numeral(n, 10);
    if n < 10 {
        assert(s.drop_last() =~= Seq::empty());
        assert(digits_value(Seq::empty()) == 0);
        assert(s.last() == digit(n));
    } else {
        lemma_quotient_shrinks(n, 10);
        decimal_reads_back(n / 10);
        let before = numeral(n / 10, 10);
        assert(s.drop_last() =~= before);
        assert(s.last() == digit(n % 10));
        assert forall|i: int| 0 <= i < s.len() implies is_digit(#[trigger] s[i]) by {
            if i < before.len() {
                assert(s[i] == before[i]);
            }
        }
    }
    assert(is_digit(s[0]));
    assert(s[0] != '+');
    assert(unsigned_digits(s) == s);
}

/// Only the ASCII letters A to Z change in lower case, each to the letter that
/// stands as far behind `a` as it does behind `A`.
pub proof fn lower_changes_upper_case_letters_only(s: Seq<char>, i: int)
    requires
        0 <= i < s.len(),
    ensures
        lower(s).len() == s.len(),
        'A' <= s[i] && s[i] <= 'Z' ==> lower(s)[i] as int - 'a' as int == s[i] as int - 'A' as int,
        !('A' <= s[i] && s[i] <= 'Z') ==> lower(s)[i] == s[i],
{
    let c = s[i];
    if 'A' <= c && c <= 'Z' {
        assert(c as u8 + 32 <= 122);
    }
}

} // verus!
