//! Natural ("human") ordering of file names: runs of ASCII digits compare
//! by their numeric value, every other character by its code point.
//!
//! The order is defined in two steps. A name is first cut into tokens
//! (`tokens`): a maximal run of digits becomes one `Number` token (its value,
//! saturated at `u64::MAX`) and any other character becomes a `Text` token,
//! so that after a number the rest of the name is cut the same way.
//! Two names are then compared lexicographically over their tokens
//! (`natural_order`).

use vstd::prelude::*;
use std::cmp::Ordering;

verus! {

/// A three-way comparison outcome.
#[derive(PartialEq, Eq, Structural, Clone, Copy, Debug)]
pub enum NatOrder {
    Less,
    Equal,
    Greater,
}

/// One token of a name: a single non-digit character (its code point) or
/// the value of a run of digits.
pub enum NatToken {
    Text(int),
    Number(u64),
}

pub open spec fn is_digit(c: char) -> bool {
    '0' <= c && c <= '9'
}

pub open spec fn digit_value(c: char) -> nat {
    (c as int - '0' as int) as nat
}

/// Number of leading ASCII digits of `s`.
pub open spec fn digit_run(s: Seq<char>) -> nat
    decreases s.len(),
{
    if s.len() > 0 && is_digit(s[0]) {
        1 + digit_run(s.skip(1))
    } else {
        0
    }
}

/// Decimal value of a sequence of digits.
pub open spec fn digits_value(s: Seq<char>) -> nat
    decreases s.len(),
{
    if s.len() == 0 {
        0
    } else {
        digits_value(s.drop_last()) * 10 + digit_value(s.last())
    }
}

/// The value of a digit run as read into a `u64`: values that do not fit
/// become `u64::MAX`.
pub open spec fn saturated_value(s: Seq<char>) -> u64 {
    if digits_value(s) <= u64::MAX {
        digits_value(s) as u64
    } else {
        u64::MAX
    }
}

pub proof fn lemma_digit_run_bounds(s: Seq<char>)
    ensures
        digit_run(s) <= s.len(),
        forall|t: int| 0 <= t < digit_run(s) ==> is_digit(#[trigger] s[t]),
        digit_run(s) < s.len() ==> !is_digit(s[digit_run(s) as int]),
    decreases s.len(),
{
    if s.len() > 0 && is_digit(s[0]) {
        lemma_digit_run_bounds(s.skip(1));
        assert forall|t: int| 0 <= t < digit_run(s) implies is_digit(#[trigger] s[t]) by {
            if t > 0 {
                assert(s[t] == s.skip(1)[t - 1]);
            }
        }
        if digit_run(s) < s.len() {
            assert(s[digit_run(s) as int] == s.skip(1)[digit_run(s.skip(1)) as int]);
        }
    }
}

/// `digit_run` is determined by where the first non-digit stands.
pub proof fn lemma_digit_run_char(s: Seq<char>, k: nat)
    requires
        k <= s.len(),
        forall|t: int| 0 <= t < k ==> is_digit(#[trigger] s[t]),
        k < s.len() ==> !is_digit(s[k as int]),
    ensures
        digit_run(s) == k,
    decreases s.len(),
{
    if k > 0 {
        assert(is_digit(s[0]));
        assert forall|t: int| 0 <= t < k - 1 implies is_digit(#[trigger] s.skip(1)[t]) by {
            assert(s.skip(1)[t] == s[t + 1]);
        }
        if k - 1 < s.skip(1).len() {
            assert(s.skip(1)[k - 1] == s[k as int]);
        }
        lemma_digit_run_char(s.skip(1), (k - 1) as nat);
    } else {
        if s.len() > 0 {
            assert(!is_digit(s[0]));
        }
    }
}

/// What is left of `s` after its leading run of digits.
pub open spec fn after_number(s: Seq<char>) -> Seq<char> {
    s.skip(digit_run(s) as int)
}

/// The token sequence of a name.
pub open spec fn tokens(s: Seq<char>) -> Seq<NatToken>
    decreases s.len(),
{
    if s.len() == 0 {
        Seq::empty()
    } else if is_digit(s[0]) {
        proof {
            lemma_digit_run_bounds(s);
        }
        seq![NatToken::Number(saturated_value(s.take(digit_run(s) as int)))]
            + tokens(after_number(s))
    } else {
        seq![NatToken::Text(s[0] as int)] + tokens(s.skip(1))
    }
}

/// Code point `c` sorts before every digit.
pub open spec fn below_digits(c: int) -> bool {
    c < ('0' as int)
}

pub open spec fn int_order(a: int, b: int) -> NatOrder {
    if a < b {
        NatOrder::Less
    } else if a == b {
        NatOrder::Equal
    } else {
        NatOrder::Greater
    }
}

/// Total order on tokens: texts below `'0'`, then numbers by value, then
/// texts from `'0'` up; texts among themselves by code point.
pub open spec fn token_order(x: NatToken, y: NatToken) -> NatOrder {
    match (x, y) {
        (NatToken::Text(a), NatToken::Text(b)) => int_order(a, b),
        (NatToken::Number(m), NatToken::Number(n)) => int_order(m as int, n as int),
        (NatToken::Number(_), NatToken::Text(c)) => if below_digits(c) {
            NatOrder::Greater
        } else {
            NatOrder::Less
        },
        (NatToken::Text(c), NatToken::Number(_)) => if below_digits(c) {
            NatOrder::Less
        } else {
            NatOrder::Greater
        },
    }
}

/// Lexicographic extension of `token_order`.
pub open spec fn token_seq_order(x: Seq<NatToken>, y: Seq<NatToken>) -> NatOrder
    decreases x.len(),
{
    if x.len() == 0 {
        if y.len() == 0 {
            NatOrder::Equal
        } else {
            NatOrder::Less
        }
    } else if y.len() == 0 {
        NatOrder::Greater
    } else {
        match token_order(x[0], y[0]) {
            NatOrder::Equal => token_seq_order(x.skip(1), y.skip(1)),
            other => other,
        }
    }
}

/// The natural order of two names.
pub open spec fn natural_order(a: Seq<char>, b: Seq<char>) -> NatOrder {
    token_seq_order(tokens(a), tokens(b))
}

proof fn lemma_first_text_token(s: Seq<char>)
    requires
        s.len() > 0,
        !is_digit(s[0]),
    ensures
        tokens(s) == seq![NatToken::Text(s[0] as int)] + tokens(s.skip(1)),
        tokens(s).skip(1) == tokens(s.skip(1)),
{
    let t: Seq<NatToken> = seq![NatToken::Text(s[0] as int)];
    let rest = tokens(s.skip(1));
    assert(tokens(s) == t + rest);
    assert((t + rest).skip(1) =~= rest);
}

/// The first token of a non-empty name.
pub proof fn lemma_first_token(s: Seq<char>)
    requires
        s.len() > 0,
    ensures
        tokens(s).len() > 0,
        is_digit(s[0]) ==> tokens(s)[0] == NatToken::Number(
            saturated_value(s.take(digit_run(s) as int)),
        ),
        is_digit(s[0]) ==> tokens(s).skip(1) == tokens(after_number(s)),
        !is_digit(s[0]) ==> tokens(s)[0] == NatToken::Text(s[0] as int),
        !is_digit(s[0]) ==> tokens(s).skip(1) == tokens(s.skip(1)),
{
    if is_digit(s[0]) {
        let t = seq![NatToken::Number(saturated_value(s.take(digit_run(s) as int)))];
        assert(tokens(s) == t + tokens(after_number(s)));
        assert((t + tokens(after_number(s))).skip(1) == tokens(after_number(s)));
    } else {
        lemma_first_text_token(s);
    }
}

pub open spec fn flip(o: NatOrder) -> NatOrder {
    match o {
        NatOrder::Less => NatOrder::Greater,
        NatOrder::Equal => NatOrder::Equal,
        NatOrder::Greater => NatOrder::Less,
    }
}

/// `std`'s ordering for a `NatOrder`.
pub open spec fn to_std_ordering(o: NatOrder) -> Ordering {
    match o {
        NatOrder::Less => Ordering::Less,
        NatOrder::Equal => Ordering::Equal,
        NatOrder::Greater => Ordering::Greater,
    }
}

// ---------------------------------------------------------------------------
// Executable comparison
// ---------------------------------------------------------------------------

/// Reads the digit run of `s` that starts at `start`: its length and its
/// value as a `u64` (saturated).
fn read_number(s: &Vec<char>, start: usize) -> (r: (usize, u64))
    requires
        start <= s.len(),
    ensures
        r.0 == digit_run(s@.skip(start as int)),
        r.1 == saturated_value(s@.skip(start as int).take(r.0 as int)),
{
    let ghost rest = s@.skip(start as int);
    let mut k: usize = 0;
    let mut acc: u64 = 0;
    let mut over = false;
    while start + k < s.len() && '0' <= s[start + k] && s[start + k] <= '9'
        invariant
            start <= s.len(),
            rest == s@.skip(start as int),
            k <= rest.len(),
            forall|t: int| 0 <= t < k ==> is_digit(#[trigger] rest[t]),
            !over ==> acc == digits_value(rest.take(k as int)),
            over ==> digits_value(rest.take(k as int)) > u64::MAX,
        decreases s.len() - start - k,
    {
        let c = s[start + k];
        let d: u64 = (c as u32 - '0' as u32) as u64;
        let ghost prev = rest.take(k as int);
        let ghost next = rest.take(k as int + 1);
        assert(next.drop_last() == prev);
        assert(next.last() == c);
        assert(digits_value(next) == digits_value(prev) * 10 + digit_value(c));
        if !over {
            match acc.checked_mul(10) {
                Some(m) => {
                    match m.checked_add(d) {
                        Some(v) => {
                            acc = v;
                        },
                        None => {
                            over = true;
                        },
                    }
                },
                None => {
                    over = true;
                },
            }
        } else {
            assert(digits_value(next) >= digits_value(prev)) by (nonlinear_arith)
                requires
                    digits_value(next) == digits_value(prev) * 10 + digit_value(c),
            ;
        }
        k = k + 1;
    }
    proof {
        lemma_digit_run_char(rest, k as nat);
    }
    if over {
        (k, u64::MAX)
    } else {
        (k, acc)
    }
}

/// Compares `a` and `b` in natural order.
pub fn natural_order_chars(a: &Vec<char>, b: &Vec<char>) -> (r: NatOrder)
    ensures
        r == natural_order(a@, b@),
{
    let mut i: usize = 0;
    let mut j: usize = 0;
    proof {
        assert(a@.skip(0) == a@);
        assert(b@.skip(0) == b@);
    }
    loop
        invariant
            i <= a.len(),
            j <= b.len(),
            natural_order(a@, b@) == natural_order(a@.skip(i as int), b@.skip(j as int)),
        decreases a.len() - i,
    {
        let ghost sa = a@.skip(i as int);
        let ghost sb = b@.skip(j as int);
        if i == a.len() && j == b.len() {
            return NatOrder::Equal;
        }
        if i == a.len() {
            proof {
                lemma_first_token(sb);
            }
            return NatOrder::Less;
        }
        if j == b.len() {
            proof {
                lemma_first_token(sa);
            }
            return NatOrder::Greater;
        }
        let ac = a[i];
        let bc = b[j];
        assert(sa[0] == ac);
        assert(sb[0] == bc);
        if '0' <= ac && ac <= '9' && '0' <= bc && bc <= '9' {
            let (ka, va) = read_number(a, i);
            let (kb, vb) = read_number(b, j);
            proof {
                lemma_digit_run_bounds(sa);
                lemma_digit_run_bounds(sb);
            }
            assert(tokens(sa) == seq![NatToken::Number(va)] + tokens(after_number(sa)));
            assert(tokens(sb) == seq![NatToken::Number(vb)] + tokens(after_number(sb)));
            if va < vb {
                return NatOrder::Less;
            } else if va > vb {
                return NatOrder::Greater;
            }
            let ghost ta = tokens(sa);
            let ghost tb = tokens(sb);
            assert(ta.skip(1) == tokens(after_number(sa)));
            assert(tb.skip(1) == tokens(after_number(sb)));
            assert(after_number(sa) =~= a@.skip(i + ka));
            assert(after_number(sb) =~= b@.skip(j + kb));
            i = i + ka;
            j = j + kb;
        } else {
            proof {
                lemma_first_token(sa);
                lemma_first_token(sb);
            }
            if ac < bc {
                assert((ac as int) < (bc as int));
                assert(token_order(tokens(sa)[0], tokens(sb)[0]) == NatOrder::Less);
                return NatOrder::Less;
            } else if ac > bc {
                assert((ac as int) > (bc as int));
                assert(token_order(tokens(sa)[0], tokens(sb)[0]) == NatOrder::Greater);
                return NatOrder::Greater;
            }
            assert(sa.skip(1) == a@.skip(i + 1));
            assert(sb.skip(1) == b@.skip(j + 1));
            i = i + 1;
            j = j + 1;
        }
    }
}

/// Compares two names in natural order: digit runs by numeric value, every
/// other character by its code point, each number followed by the rest of
/// its name.
pub fn compare(a: &str, b: &str) -> (r: Ordering)
    ensures
        r == to_std_ordering(natural_order(a@, b@)),
{
    let av = crate::text::chars_of(a);
    let bv = crate::text::chars_of(b);
    match natural_order_chars(&av, &bv) {
        NatOrder::Less => Ordering::Less,
        NatOrder::Equal => Ordering::Equal,
        NatOrder::Greater => Ordering::Greater,
    }
}

// ---------------------------------------------------------------------------
// Laws
// ---------------------------------------------------------------------------

proof fn lemma_token_order_props(x: NatToken, y: NatToken, z: NatToken)
    ensures
        token_order(x, x) == NatOrder::Equal,
        token_order(y, x) == flip(token_order(x, y)),
        token_order(x, y) == NatOrder::Equal ==> x == y,
        token_order(x, y) == NatOrder::Less && token_order(y, z) == NatOrder::Less
            ==> token_order(x, z) == NatOrder::Less,
{
}

proof fn lemma_seq_order_reflexive(x: Seq<NatToken>)
    ensures
        token_seq_order(x, x) == NatOrder::Equal,
    decreases x.len(),
{
    if x.len() > 0 {
        lemma_token_order_props(x[0], x[0], x[0]);
        lemma_seq_order_reflexive(x.skip(1));
    }
}

proof fn lemma_seq_order_antisymmetric(x: Seq<NatToken>, y: Seq<NatToken>)
    ensures
        token_seq_order(y, x) == flip(token_seq_order(x, y)),
    decreases x.len(),
{
    if x.len() > 0 && y.len() > 0 {
        lemma_token_order_props(x[0], y[0], y[0]);
        lemma_seq_order_antisymmetric(x.skip(1), y.skip(1));
    }
}

proof fn lemma_seq_order_equal(x: Seq<NatToken>, y: Seq<NatToken>)
    ensures
        token_seq_order(x, y) == NatOrder::Equal ==> x == y,
    decreases x.len(),
{
    if x.len() > 0 && y.len() > 0 {
        lemma_token_order_props(x[0], y[0], y[0]);
        lemma_seq_order_equal(x.skip(1), y.skip(1));
        if token_seq_order(x, y) == NatOrder::Equal {
            assert(x == seq![x[0]] + x.skip(1));
            assert(y == seq![y[0]] + y.skip(1));
        }
    }
}

proof fn lemma_seq_order_less_transitive(x: Seq<NatToken>, y: Seq<NatToken>, z: Seq<NatToken>)
    requires
        token_seq_order(x, y) == NatOrder::Less,
        token_seq_order(y, z) == NatOrder::Less,
    ensures
        token_seq_order(x, z) == NatOrder::Less,
    decreases x.len(),
{
    if x.len() > 0 {
        lemma_token_order_props(x[0], y[0], z[0]);
        lemma_token_order_props(y[0], z[0], z[0]);
        if token_order(x[0], y[0]) == NatOrder::Equal && token_order(y[0], z[0])
            == NatOrder::Equal {
            lemma_seq_order_less_transitive(x.skip(1), y.skip(1), z.skip(1));
        }
    }
}

/// Every name is equal to itself in natural order.
pub proof fn lemma_natural_order_reflexive(a: Seq<char>)
    ensures
        natural_order(a, a) == NatOrder::Equal,
{
    lemma_seq_order_reflexive(tokens(a));
}

/// Swapping the two names flips the outcome.
pub proof fn lemma_natural_order_antisymmetric(a: Seq<char>, b: Seq<char>)
    ensures
        natural_order(b, a) == flip(natural_order(a, b)),
{
    lemma_seq_order_antisymmetric(tokens(a), tokens(b));
}

/// Two names are equal in natural order exactly when they have the same tokens.
pub proof fn lemma_natural_order_equal(a: Seq<char>, b: Seq<char>)
    ensures
        natural_order(a, b) == NatOrder::Equal <==> tokens(a) == tokens(b),
{
    lemma_seq_order_equal(tokens(a), tokens(b));
    lemma_seq_order_reflexive(tokens(a));
}

/// Natural order is transitive: it is a total preorder on names.
pub proof fn lemma_natural_order_transitive(a: Seq<char>, b: Seq<char>, c: Seq<char>)
    ensures
        natural_order(a, b) != NatOrder::Greater && natural_order(b, c) != NatOrder::Greater
            ==> natural_order(a, c) != NatOrder::Greater,
        natural_order(a, b) == NatOrder::Less && natural_order(b, c) != NatOrder::Greater
            ==> natural_order(a, c) == NatOrder::Less,
        natural_order(a, b) != NatOrder::Greater && natural_order(b, c) == NatOrder::Less
            ==> natural_order(a, c) == NatOrder::Less,
{
    lemma_natural_order_equal(a, b);
    lemma_natural_order_equal(b, c);
    if natural_order(a, b) == NatOrder::Less && natural_order(b, c) == NatOrder::Less {
        lemma_seq_order_less_transitive(tokens(a), tokens(b), tokens(c));
    }
}

/// Names made only of digits (whose values fit a `u64`) compare by
/// their numeric value: "2" comes before "10".
pub proof fn lemma_natural_order_numeric(a: Seq<char>, b: Seq<char>)
    requires
        a.len() > 0,
        b.len() > 0,
        forall|i: int| 0 <= i < a.len() ==> is_digit(#[trigger] a[i]),
        forall|i: int| 0 <= i < b.len() ==> is_digit(#[trigger] b[i]),
        digits_value(a) <= u64::MAX,
        digits_value(b) <= u64::MAX,
    ensures
        natural_order(a, b) == int_order(digits_value(a) as int, digits_value(b) as int),
{
    lemma_digit_run_char(a, a.len());
    lemma_digit_run_char(b, b.len());
    lemma_first_token(a);
    lemma_first_token(b);
    assert(a.take(a.len() as int) == a);
    assert(b.take(b.len() as int) == b);
    assert(after_number(a) =~= Seq::<char>::empty());
    assert(after_number(b) =~= Seq::<char>::empty());
    assert(tokens(after_number(a)) == Seq::<NatToken>::empty());
    assert(tokens(after_number(b)) == Seq::<NatToken>::empty());
    assert(tokens(a).skip(1).len() == 0);
    assert(tokens(b).skip(1).len() == 0);
    assert(tokens(a)[0] == NatToken::Number(digits_value(a) as u64));
    assert(tokens(b)[0] == NatToken::Number(digits_value(b) as u64));
    assert(token_seq_order(tokens(a).skip(1), tokens(b).skip(1)) == NatOrder::Equal);
}

/// After the same number, the rest of the two names decides: a name that
/// starts with the digits `d` compares with another starting with `d` as
/// what follows the digits compares.
pub proof fn lemma_natural_order_after_number(d: Seq<char>, x: Seq<char>, y: Seq<char>)
    requires
        d.len() > 0,
        forall|i: int| 0 <= i < d.len() ==> is_digit(#[trigger] d[i]),
        x.len() > 0 ==> !is_digit(x[0]),
        y.len() > 0 ==> !is_digit(y[0]),
    ensures
        natural_order(d + x, d + y) == natural_order(x, y),
{
    let a = d + x;
    let b = d + y;
    assert forall|t: int| 0 <= t < d.len() implies is_digit(#[trigger] a[t]) by {
        assert(a[t] == d[t]);
    }
    assert forall|t: int| 0 <= t < d.len() implies is_digit(#[trigger] b[t]) by {
        assert(b[t] == d[t]);
    }
    if x.len() > 0 {
        assert(a[d.len() as int] == x[0]);
    }
    if y.len() > 0 {
        assert(b[d.len() as int] == y[0]);
    }
    lemma_digit_run_char(a, d.len());
    lemma_digit_run_char(b, d.len());
    assert(a[0] == d[0]);
    assert(b[0] == d[0]);
    lemma_first_token(a);
    lemma_first_token(b);
    assert(a.take(d.len() as int) =~= d);
    assert(b.take(d.len() as int) =~= d);
    assert(after_number(a) =~= x);
    assert(after_number(b) =~= y);
    lemma_token_order_props(tokens(a)[0], tokens(b)[0], tokens(b)[0]);
    assert(token_order(tokens(a)[0], tokens(b)[0]) == NatOrder::Equal);
}

} // verus!
