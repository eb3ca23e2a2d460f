//! Character-level helpers: code-point order of strings, HTML escaping,
//! lower-casing and small string surgery.

use vstd::prelude::*;
use crate::natord::{NatOrder, digit_value, digits_value, flip, int_order, is_digit};

verus! {

/// The characters of `s`, in order.
pub fn chars_of(s: &str) -> (r: Vec<char>)
    ensures
        r@ == s@,
{
    let mut out: Vec<char> = Vec::new();
    for c in it: s.chars()
        invariant
            out@ == it.seq().take(it.index() as int),
            it.seq() == s@,
    {
        out.push(c);
    }
    out
}

/// `a` and `b` hold the same characters.
pub fn str_equal(a: &str, b: &str) -> (r: bool)
    ensures
        r == (a@ == b@),
{
    let x = chars_of(a);
    let y = chars_of(b);
    if x.len() != y.len() {
        return false;
    }
    let mut i: usize = 0;
    while i < x.len()
        invariant
            x@ == a@,
            y@ == b@,
            x.len() == y.len(),
            i <= x.len(),
            forall|t: int| 0 <= t < i ==> x@[t] == y@[t],
        decreases x.len() - i,
    {
        if x[i] != y[i] {
            return false;
        }
        i = i + 1;
    }
    assert(x@ == y@);
    true
}

/// Appends `c` to `s`.
///
/// Trusted: `String::push`, which std documents as appending the given
/// `char` to the end of the string.
#[verifier::external_body]
pub fn push_char(s: &mut String, c: char)
    ensures
        final(s)@ == old(s)@.push(c),
{
    s.push(c);
}

/// The lower-case form of a string, as `str::to_lowercase` computes it
/// (Unicode lower-casing; deterministic and independent of the locale).
pub uninterp spec fn lowercase_of(s: Seq<char>) -> Seq<char>;

/// Trusted: `str::to_lowercase`. The contract only ties the result to its
/// argument through `lowercase_of`; what Unicode lower-casing does to each
/// character is left unsaid.
#[verifier::external_body]
pub fn to_lowercase(s: &str) -> (r: String)
    ensures
        r@ == lowercase_of(s@),
{
    s.to_lowercase()
}

// ---------------------------------------------------------------------------
// Code-point (lexicographic) order of strings
// ---------------------------------------------------------------------------

/// Lexicographic order of two character sequences, by code point. For
/// UTF-8 strings this is the order of `String`'s `Ord` (byte order), since
/// UTF-8 preserves the order of code points.
pub open spec fn char_seq_order(a: Seq<char>, b: Seq<char>) -> NatOrder
    decreases a.len(),
{
    if a.len() == 0 {
        if b.len() == 0 {
            NatOrder::Equal
        } else {
            NatOrder::Less
        }
    } else if b.len() == 0 {
        NatOrder::Greater
    } else {
        match int_order(a[0] as int, b[0] as int) {
            NatOrder::Equal => char_seq_order(a.skip(1), b.skip(1)),
            other => other,
        }
    }
}

/// Compares `a` and `b` by code point.
pub fn char_seq_order_exec(a: &Vec<char>, b: &Vec<char>) -> (r: NatOrder)
    ensures
        r == char_seq_order(a@, b@),
{
    let mut i: usize = 0;
    proof {
        assert(a@.skip(0) == a@);
        assert(b@.skip(0) == b@);
    }
    while i < a.len() && i < b.len()
        invariant
            i <= a.len(),
            i <= b.len(),
            char_seq_order(a@, b@) == char_seq_order(a@.skip(i as int), b@.skip(i as int)),
        decreases a.len() - i,
    {
        let ghost sa = a@.skip(i as int);
        let ghost sb = b@.skip(i as int);
        assert(sa[0] == a[i as int]);
        assert(sb[0] == b[i as int]);
        if a[i] < b[i] {
            return NatOrder::Less;
        } else if a[i] > b[i] {
            return NatOrder::Greater;
        }
        assert(sa.skip(1) == a@.skip(i + 1));
        assert(sb.skip(1) == b@.skip(i + 1));
        i = i + 1;
    }
    if i == a.len() && i == b.len() {
        NatOrder::Equal
    } else if i == a.len() {
        NatOrder::Less
    } else {
        NatOrder::Greater
    }
}

/// Code-point order is reflexive, antisymmetric and transitive, and only
/// equal sequences compare `Equal`.
pub proof fn lemma_char_seq_order_laws(a: Seq<char>, b: Seq<char>, c: Seq<char>)
    ensures
        char_seq_order(a, a) == NatOrder::Equal,
        char_seq_order(b, a) == flip(char_seq_order(a, b)),
        char_seq_order(a, b) == NatOrder::Equal ==> a == b,
        char_seq_order(a, b) == NatOrder::Less && char_seq_order(b, c) == NatOrder::Less
            ==> char_seq_order(a, c) == NatOrder::Less,
    decreases a.len(),
{
    if a.len() > 0 && b.len() > 0 {
        if c.len() > 0 {
            lemma_char_seq_order_laws(a.skip(1), b.skip(1), c.skip(1));
        } else {
            lemma_char_seq_order_laws(a.skip(1), b.skip(1), c);
        }
        if char_seq_order(a, b) == NatOrder::Equal {
            assert(a == seq![a[0]] + a.skip(1));
            assert(b == seq![b[0]] + b.skip(1));
        }
    } else if a.len() > 0 {
        lemma_char_seq_order_laws(a.skip(1), a.skip(1), a.skip(1));
    }
}

// ---------------------------------------------------------------------------
// HTML escaping
// ---------------------------------------------------------------------------

/// The HTML escape of one character.
pub open spec fn escape_char(c: char) -> Seq<char> {
    if c == '&' {
        seq!['&', 'a', 'm', 'p', ';']
    } else if c == '<' {
        seq!['&', 'l', 't', ';']
    } else if c == '>' {
        seq!['&', 'g', 't', ';']
    } else if c == '"' {
        seq!['&', 'q', 'u', 'o', 't', ';']
    } else if c == '\'' {
        seq!['&', '#', '3', '9', ';']
    } else {
        seq![c]
    }
}

/// Each character replaced by its escape.
pub open spec fn html_escaped(s: Seq<char>) -> Seq<char>
    decreases s.len(),
{
    if s.len() == 0 {
        Seq::empty()
    } else {
        escape_char(s[0]) + html_escaped(s.skip(1))
    }
}

pub proof fn lemma_html_escaped_append(x: Seq<char>, y: Seq<char>)
    ensures
        html_escaped(x + y) == html_escaped(x) + html_escaped(y),
    decreases x.len(),
{
    if x.len() == 0 {
        assert(x + y == y);
    } else {
        assert((x + y).skip(1) == x.skip(1) + y);
        lemma_html_escaped_append(x.skip(1), y);
    }
}

proof fn lemma_html_escaped_single(c: char)
    ensures
        html_escaped(seq![c]) == escape_char(c),
{
    let one: Seq<char> = seq![c];
    assert(one.skip(1) =~= Seq::<char>::empty());
    assert(html_escaped(one.skip(1)) == Seq::<char>::empty());
    assert(one[0] == c);
    assert(escape_char(c) + Seq::<char>::empty() =~= escape_char(c));
}

/// Appends the escape of `c` to `out`.
fn push_escaped(out: &mut String, c: char)
    ensures
        final(out)@ == old(out)@ + escape_char(c),
{
    if c == '&' {
        push_char(out, '&');
        push_char(out, 'a');
        push_char(out, 'm');
        push_char(out, 'p');
        push_char(out, ';');
    } else if c == '<' {
        push_char(out, '&');
        push_char(out, 'l');
        push_char(out, 't');
        push_char(out, ';');
    } else if c == '>' {
        push_char(out, '&');
        push_char(out, 'g');
        push_char(out, 't');
        push_char(out, ';');
    } else if c == '"' {
        push_char(out, '&');
        push_char(out, 'q');
        push_char(out, 'u');
        push_char(out, 'o');
        push_char(out, 't');
        push_char(out, ';');
    } else if c == '\'' {
        push_char(out, '&');
        push_char(out, '#');
        push_char(out, '3');
        push_char(out, '9');
        push_char(out, ';');
    } else {
        push_char(out, c);
    }
    assert(final(out)@ == old(out)@ + escape_char(c));
}

/// Appends the HTML escape of `s` to `out`.
pub fn push_html_escaped(out: &mut String, s: &str)
    ensures
        final(out)@ == old(out)@ + html_escaped(s@),
{
    let cs = chars_of(s);
    let ghost start = out@;
    let mut i: usize = 0;
    while i < cs.len()
        invariant
            i <= cs.len(),
            cs@ == s@,
            out@ == start + html_escaped(cs@.take(i as int)),
        decreases cs.len() - i,
    {
        let c = cs[i];
        proof {
            assert(cs@.take(i + 1) == cs@.take(i as int) + seq![c]);
            lemma_html_escaped_append(cs@.take(i as int), seq![c]);
            lemma_html_escaped_single(c);
        }
        push_escaped(out, c);
        i = i + 1;
    }
    assert(cs@.take(cs.len() as int) == s@);
}

/// The character an HTML entity at the start of `t` stands for, with the
/// entity's length (only the five entities that `html_escaped` writes).
pub open spec fn entity_at(t: Seq<char>) -> Option<(char, nat)> {
    if t.len() >= 5 && t[0] == '&' && t[1] == 'a' && t[2] == 'm' && t[3] == 'p' && t[4] == ';' {
        Some(('&', 5))
    } else if t.len() >= 4 && t[0] == '&' && t[1] == 'l' && t[2] == 't' && t[3] == ';' {
        Some(('<', 4))
    } else if t.len() >= 4 && t[0] == '&' && t[1] == 'g' && t[2] == 't' && t[3] == ';' {
        Some(('>', 4))
    } else if t.len() >= 6 && t[0] == '&' && t[1] == 'q' && t[2] == 'u' && t[3] == 'o' && t[4]
        == 't' && t[5] == ';' {
        Some(('"', 6))
    } else if t.len() >= 5 && t[0] == '&' && t[1] == '#' && t[2] == '3' && t[3] == '9' && t[4]
        == ';' {
        Some(('\'', 5))
    } else {
        None
    }
}

/// Decoding of the five entities, left to right.
pub open spec fn html_unescaped(t: Seq<char>) -> Seq<char>
    decreases t.len(),
{
    if t.len() == 0 {
        Seq::empty()
    } else {
        match entity_at(t) {
            Some((c, n)) => seq![c] + html_unescaped(t.skip(n as int)),
            None => seq![t[0]] + html_unescaped(t.skip(1)),
        }
    }
}

/// Escaping loses nothing: decoding the escape of `s` gives `s` back.
pub proof fn lemma_html_escape_roundtrip(s: Seq<char>)
    ensures
        html_unescaped(html_escaped(s)) == s,
    decreases s.len(),
{
    if s.len() > 0 {
        let c = s[0];
        let e = escape_char(c);
        let rest = html_escaped(s.skip(1));
        let t = e + rest;
        lemma_html_escape_roundtrip(s.skip(1));
        assert(t.skip(e.len() as int) == rest);
        assert(forall|i: int| 0 <= i < e.len() ==> t[i] == e[i]);
        if c == '&' || c == '<' || c == '>' || c == '"' || c == '\'' {
            assert(entity_at(t) == Some((c, e.len())));
        } else {
            assert(entity_at(t) is None);
            assert(t[0] == c);
        }
        assert(html_unescaped(t) == seq![c] + s.skip(1));
        assert(s == seq![c] + s.skip(1));
    }
}

/// The escape of any string holds none of `<`, `>`, `"` and `'`.
pub proof fn lemma_html_escaped_safe(s: Seq<char>)
    ensures
        forall|i: int|
            0 <= i < html_escaped(s).len() ==> {
                let c = #[trigger] html_escaped(s)[i];
                c != '<' && c != '>' && c != '"' && c != '\''
            },
    decreases s.len(),
{
    if s.len() > 0 {
        lemma_html_escaped_safe(s.skip(1));
        let e = escape_char(s[0]);
        let rest = html_escaped(s.skip(1));
        assert forall|i: int| 0 <= i < html_escaped(s).len() implies {
            let c = #[trigger] html_escaped(s)[i];
            c != '<' && c != '>' && c != '"' && c != '\''
        } by {
            if i >= e.len() {
                assert(html_escaped(s)[i] == rest[i - e.len()]);
            }
        }
    }
}

// ---------------------------------------------------------------------------
// Decimal numbers
// ---------------------------------------------------------------------------

/// The character of a decimal digit.
pub open spec fn digit_char(d: nat) -> char {
    if d == 0 {
        '0'
    } else if d == 1 {
        '1'
    } else if d == 2 {
        '2'
    } else if d == 3 {
        '3'
    } else if d == 4 {
        '4'
    } else if d == 5 {
        '5'
    } else if d == 6 {
        '6'
    } else if d == 7 {
        '7'
    } else if d == 8 {
        '8'
    } else {
        '9'
    }
}

/// The decimal representation of `n` (as `Display` writes an unsigned integer).
pub open spec fn decimal(n: nat) -> Seq<char>
    decreases n,
{
    if n < 10 {
        seq![digit_char(n)]
    } else {
        decimal(n / 10).push(digit_char(n % 10))
    }
}

fn digit_char_exec(d: usize) -> (c: char)
    requires
        d < 10,
    ensures
        c == digit_char(d as nat),
{
    if d == 0 {
        '0'
    } else if d == 1 {
        '1'
    } else if d == 2 {
        '2'
    } else if d == 3 {
        '3'
    } else if d == 4 {
        '4'
    } else if d == 5 {
        '5'
    } else if d == 6 {
        '6'
    } else if d == 7 {
        '7'
    } else if d == 8 {
        '8'
    } else {
        '9'
    }
}

/// Appends the decimal representation of `n` to `out`.
pub fn push_decimal(out: &mut String, n: usize)
    ensures
        final(out)@ == old(out)@ + decimal(n as nat),
    decreases n,
{
    if n >= 10 {
        push_decimal(out, n / 10);
    }
    push_char(out, digit_char_exec(n % 10));
    assert(final(out)@ == old(out)@ + decimal(n as nat));
}

// ---------------------------------------------------------------------------
// Leading slashes
// ---------------------------------------------------------------------------

/// Number of leading `'/'` characters of `s`.
pub open spec fn slash_run(s: Seq<char>) -> nat
    decreases s.len(),
{
    if s.len() > 0 && s[0] == '/' {
        1 + slash_run(s.skip(1))
    } else {
        0
    }
}

proof fn lemma_slash_run(s: Seq<char>, k: nat)
    requires
        k <= s.len(),
        forall|t: int| 0 <= t < k ==> #[trigger] s[t] == '/',
        k < s.len() ==> s[k as int] != '/',
    ensures
        slash_run(s) == k,
    decreases s.len(),
{
    if k > 0 {
        assert forall|t: int| 0 <= t < k - 1 implies #[trigger] s.skip(1)[t] == '/' by {
            assert(s.skip(1)[t] == s[t + 1]);
        }
        if k - 1 < s.skip(1).len() {
            assert(s.skip(1)[k - 1] == s[k as int]);
        }
        lemma_slash_run(s.skip(1), (k - 1) as nat);
    }
}

/// `s` without its leading slashes (`str::trim_start_matches('/')`).
pub fn trim_leading_slashes(s: &str) -> (r: &str)
    ensures
        r@ == s@.skip(slash_run(s@) as int),
        r@.len() == 0 || r@[0] != '/',
{
    let cs = chars_of(s);
    let mut k: usize = 0;
    while k < cs.len() && cs[k] == '/'
        invariant
            k <= cs.len(),
            cs@ == s@,
            forall|t: int| 0 <= t < k ==> #[trigger] s@[t] == '/',
        decreases cs.len() - k,
    {
        k = k + 1;
    }
    proof {
        lemma_slash_run(s@, k as nat);
    }
    s.substring_char(k, cs.len())
}

/// `digit_char` writes the digit of value `d`.
proof fn lemma_digit_char_value(d: nat)
    requires
        d < 10,
    ensures
        is_digit(digit_char(d)),
        digit_value(digit_char(d)) == d,
{
}

/// The decimal text of `n` is a non-empty run of digits that reads back as
/// `n`, with no leading zero unless `n` is zero: it has exactly the digits
/// of `n` (so 10 is written `10`).
pub proof fn lemma_decimal_reads_back(n: nat)
    ensures
        decimal(n).len() > 0,
        forall|i: int| 0 <= i < decimal(n).len() ==> is_digit(#[trigger] decimal(n)[i]),
        digits_value(decimal(n)) == n,
        decimal(n)[0] == '0' ==> n == 0,
    decreases n,
{
    if n < 10 {
        lemma_digit_char_value(n);
        let s = decimal(n);
        assert(s.drop_last() =~= Seq::<char>::empty());
        assert(digits_value(s) == digits_value(s.drop_last()) * 10 + digit_value(s.last()));
    } else {
        lemma_decimal_reads_back(n / 10);
        lemma_digit_char_value(n % 10);
        let s = decimal(n);
        let t = decimal(n / 10);
        assert(s == t.push(digit_char(n % 10)));
        assert(s.drop_last() =~= t);
        assert(digits_value(s) == digits_value(t) * 10 + digit_value(s.last()));
        assert(s[0] == t[0]);
        assert forall|i: int| 0 <= i < s.len() implies is_digit(#[trigger] s[i]) by {
            if i < t.len() {
                assert(s[i] == t[i]);
            }
        }
        assert((n / 10) * 10 + n % 10 == n);
    }
}

} // verus!
