//! Decimal rendering of integers into strings, as used in map keys
//! and file names.

use vstd::prelude::*;

verus! {

/// The character of a decimal digit.
pub open spec fn digit_char(d: nat) -> char {
    if d == 0 { '0' }
    else if d == 1 { '1' }
    else if d == 2 { '2' }
    else if d == 3 { '3' }
    else if d == 4 { '4' }
    else if d == 5 { '5' }
    else if d == 6 { '6' }
    else if d == 7 { '7' }
    else if d == 8 { '8' }
    else { '9' }
}

/// The decimal digits of a natural number, most significant first,
/// without leading zeros ("0" for zero).
pub open spec fn decimal(n: nat) -> Seq<char>
    decreases n,
{
    if n < 10 {
        seq![digit_char(n)]
    } else {
        decimal(n / 10).push(digit_char(n % 10))
    }
}

/// The decimal rendering of an integer: a minus sign before the digits
/// of its magnitude when it is negative.
pub open spec fn signed_decimal(n: int) -> Seq<char> {
    if n < 0 {
        seq!['-'] + decimal((-n) as nat)
    } else {
        decimal(n as nat)
    }
}

fn digit_str(d: u32) -> (s: &'static str)
    requires
        d < 10,
    ensures
        s@ == seq![digit_char(d as nat)],
{
    proof {
        reveal_strlit("0");
        reveal_strlit("1");
        reveal_strlit("2");
        reveal_strlit("3");
        reveal_strlit("4");
        reveal_strlit("5");
        reveal_strlit("6");
        reveal_strlit("7");
        reveal_strlit("8");
        reveal_strlit("9");
    }
    match d {
        0 => "0",
        1 => "1",
        2 => "2",
        3 => "3",
        4 => "4",
        5 => "5",
        6 => "6",
        7 => "7",
        8 => "8",
        _ => "9",
    }
}

/// Appends the decimal digits of `n` to `s`.
pub fn push_decimal(s: &mut String, n: u64)
    ensures
        final(s)@ == old(s)@ + decimal(n as nat),
    decreases n,
{
    if n >= 10 {
        push_decimal(s, n / 10);
    }
    let d = (n % 10) as u32;
    s.append(digit_str(d));
}

/// Appends the decimal rendering of a signed integer to `s`.
pub fn push_signed_decimal(s: &mut String, n: i64)
    ensures
        final(s)@ == old(s)@ + signed_decimal(n as int),
{
    if n < 0 {
        proof {
            reveal_strlit("-");
        }
        s.append("-");
        let magnitude: u64 = if n == i64::MIN {
            9223372036854775808u64
        } else {
            (-n) as u64
        };
        push_decimal(s, magnitude);
        assert(final(s)@ =~= old(s)@ + signed_decimal(n as int)) by {
            assert(seq!['-'] + decimal((-n) as nat) =~= seq!['-'] + decimal(magnitude as nat));
        }
    } else {
        push_decimal(s, n as u64);
    }
}

/// The text `a_b_c` of three signed integers, each rendered in decimal
/// and joined by underscores.
pub open spec fn triple_key(a: int, b: int, c: int) -> Seq<char> {
    signed_decimal(a) + seq!['_'] + signed_decimal(b) + seq!['_'] + signed_decimal(c)
}

proof fn lemma_digit_char(d: nat, e: nat)
    requires
        d < 10,
        e < 10,
    ensures
        digit_char(d) != '_',
        digit_char(d) != '-',
        digit_char(d) == digit_char(e) ==> d == e,
{
}

/// Decimal digits hold no underscore and no minus sign, and at least
/// one digit.
proof fn lemma_decimal_chars(n: nat)
    ensures
        decimal(n).len() >= 1,
        n >= 10 ==> decimal(n).len() >= 2,
        forall|i: int| 0 <= i < decimal(n).len() ==> #[trigger] decimal(n)[i] != '_' && decimal(n)[i] != '-',
    decreases n,
{
    lemma_digit_char(n % 10, 0);
    if n >= 10 {
        lemma_decimal_chars(n / 10);
        let d = decimal(n / 10);
        assert forall|i: int| 0 <= i < decimal(n).len() implies #[trigger] decimal(n)[i] != '_' && decimal(n)[i] != '-' by {
            if i < d.len() {
                assert(decimal(n)[i] == d[i]);
            }
        }
    }
}

/// Different numbers have different decimal renderings.
proof fn lemma_decimal_injective(a: nat, b: nat)
    ensures
        decimal(a) == decimal(b) ==> a == b,
    decreases a,
{
    lemma_decimal_chars(a);
    lemma_decimal_chars(b);
    if decimal(a) == decimal(b) {
        lemma_digit_char(a % 10, b % 10);
        if a < 10 {
            assert(decimal(a)[0] == decimal(b)[0]);
        } else {
            assert(b >= 10);
            assert(decimal(a).last() == digit_char(a % 10));
            assert(decimal(b).last() == digit_char(b % 10));
            assert(decimal(a).drop_last() =~= decimal(a / 10));
            assert(decimal(b).drop_last() =~= decimal(b / 10));
            lemma_decimal_injective(a / 10, b / 10);
        }
    }
}

/// Text made of two parts joined by an underscore, where the first part
/// holds none, splits back into its parts.
proof fn lemma_split_underscore(x1: Seq<char>, r1: Seq<char>, x2: Seq<char>, r2: Seq<char>)
    requires
        forall|i: int| 0 <= i < x1.len() ==> #[trigger] x1[i] != '_',
        forall|i: int| 0 <= i < x2.len() ==> #[trigger] x2[i] != '_',
        x1 + seq!['_'] + r1 == x2 + seq!['_'] + r2,
    ensures
        x1 == x2,
        r1 == r2,
{
    let s1 = x1 + seq!['_'] + r1;
    let s2 = x2 + seq!['_'] + r2;
    if x1.len() < x2.len() {
        assert(s1[x1.len() as int] == '_');
        assert(s2[x1.len() as int] == x2[x1.len() as int]);
    } else if x2.len() < x1.len() {
        assert(s2[x2.len() as int] == '_');
        assert(s1[x2.len() as int] == x1[x2.len() as int]);
    } else {
        assert(x1 =~= s1.take(x1.len() as int));
        assert(x2 =~= s2.take(x2.len() as int));
        assert(r1 =~= s1.skip(x1.len() as int + 1));
        assert(r2 =~= s2.skip(x2.len() as int + 1));
    }
}

/// Different triples of natural numbers get different keys.
pub proof fn lemma_triple_key_injective(a: nat, b: nat, c: nat, d: nat, e: nat, f: nat)
    ensures
        triple_key(a as int, b as int, c as int) == triple_key(d as int, e as int, f as int)
            ==> a == d && b == e && c == f,
{
    if triple_key(a as int, b as int, c as int) == triple_key(d as int, e as int, f as int) {
        lemma_decimal_chars(a);
        lemma_decimal_chars(b);
        lemma_decimal_chars(d);
        lemma_decimal_chars(e);
        let rest1 = decimal(b) + seq!['_'] + decimal(c);
        let rest2 = decimal(e) + seq!['_'] + decimal(f);
        assert(triple_key(a as int, b as int, c as int) =~= decimal(a) + seq!['_'] + rest1);
        assert(triple_key(d as int, e as int, f as int) =~= decimal(d) + seq!['_'] + rest2);
        lemma_split_underscore(decimal(a), rest1, decimal(d), rest2);
        lemma_split_underscore(decimal(b), decimal(c), decimal(e), decimal(f));
        lemma_decimal_injective(a, d);
        lemma_decimal_injective(b, e);
        lemma_decimal_injective(c, f);
    }
}

/// Renders three integers as `a_b_c`.
pub fn format_triple(a: i64, b: i64, c: i64) -> (s: String)
    ensures
        s@ == triple_key(a as int, b as int, c as int),
{
    proof {
        reveal_strlit("_");
    }
    let mut s = String::new();
    push_signed_decimal(&mut s, a);
    s.append("_");
    push_signed_decimal(&mut s, b);
    s.append("_");
    push_signed_decimal(&mut s, c);
    assert(s@ =~= triple_key(a as int, b as int, c as int));
    s
}


/// A character with Unicode's White_Space property: tab, line feed,
/// vertical tab, form feed, carriage return, space, next line,
/// no-break space, ogham space mark, the spaces from en quad to hair
/// space, line and paragraph separators, narrow no-break space, medium
/// mathematical space and ideographic space.
pub open spec fn is_white_space(c: char) -> bool {
    let n = c as u32;
    ||| 0x9 <= n <= 0xD
    ||| n == 0x20
    ||| n == 0x85
    ||| n == 0xA0
    ||| n == 0x1680
    ||| 0x2000 <= n <= 0x200A
    ||| n == 0x2028
    ||| n == 0x2029
    ||| n == 0x202F
    ||| n == 0x205F
    ||| n == 0x3000
}

/// The text without its leading white space.
pub open spec fn trimmed_start(s: Seq<char>) -> Seq<char>
    decreases s.len(),
{
    if s.len() > 0 && is_white_space(s[0]) {
        trimmed_start(s.drop_first())
    } else {
        s
    }
}

/// The text without its trailing white space.
pub open spec fn trimmed_end(s: Seq<char>) -> Seq<char>
    decreases s.len(),
{
    if s.len() > 0 && is_white_space(s.last()) {
        trimmed_end(s.drop_last())
    } else {
        s
    }
}

/// What `str::trim` leaves of a text: the text without its leading and
/// trailing white space.
pub open spec fn trimmed(s: Seq<char>) -> Seq<char> {
    trimmed_end(trimmed_start(s))
}

/// A decimal digit.
pub open spec fn is_digit(c: char) -> bool {
    c == '0' || c == '1' || c == '2' || c == '3' || c == '4' || c == '5' || c == '6' || c == '7' || c == '8'
        || c == '9'
}

/// The value of a decimal digit.
pub open spec fn digit_value(c: char) -> int {
    if c == '1' { 1 } else if c == '2' { 2 } else if c == '3' { 3 } else if c == '4' { 4 } else if c == '5' { 5 }
    else if c == '6' { 6 } else if c == '7' { 7 } else if c == '8' { 8 } else if c == '9' { 9 } else { 0 }
}

/// The value of a run of decimal digits, the last one the units.
pub open spec fn digits_value(s: Seq<char>) -> int
    decreases s.len(),
{
    if s.len() == 0 {
        0
    } else {
        digits_value(s.drop_last()) * 10 + digit_value(s.last())
    }
}

/// What `str::parse::<i64>` reads from a text: an optional `+` or `-`,
/// then one or more decimal digits and nothing else, giving the value
/// when it fits in an `i64`; nothing otherwise.
#[verifier::opaque]
pub open spec fn parsed_i64(s: Seq<char>) -> Option<i64> {
    let signed = s.len() > 0 && (s[0] == '-' || s[0] == '+');
    let body = if signed { s.drop_first() } else { s };
    let v = if s.len() > 0 && s[0] == '-' { -digits_value(body) } else { digits_value(body) };
    if body.len() > 0 && (forall|i: int| 0 <= i < body.len() ==> is_digit(#[trigger] body[i]))
        && i64::MIN <= v <= i64::MAX {
        Some(v as i64)
    } else {
        None
    }
}

/// `str::trim`: the text without leading and trailing white space.
#[verifier::external_body]
pub(crate) fn trim_text(s: &str) -> (r: &str)
    ensures
        r@ == trimmed(s@),
{
    s.trim()
}

/// `str::parse::<i64>`: the integer the text writes, if any (see
/// `parsed_i64`).
#[verifier::external_body]
pub(crate) fn parse_i64(s: &str) -> (r: Option<i64>)
    ensures
        r == parsed_i64(s@),
{
    s.parse::<i64>().ok()
}

/// Whether the text holds character `c`.
pub fn contains_char(s: &str, c: char) -> (b: bool)
    ensures
        b == s@.contains(c),
{
    let n = s.unicode_len();
    let mut i: usize = 0;
    while i < n
        invariant
            n == s@.len(),
            i <= n,
            forall|j: int| 0 <= j < i ==> s@[j] != c,
        decreases n - i,
    {
        if s.get_char(i) == c {
            return true;
        }
        i = i + 1;
    }
    false
}

/// Removes the last character of the text, if any.
pub fn pop_char(s: &mut String)
    ensures
        final(s)@ == (if old(s)@.len() > 0 { old(s)@.drop_last() } else { old(s)@ }),
{
    let n = s.as_str().unicode_len();
    if n > 0 {
        let kept = String::from_str(s.as_str().substring_char(0, n - 1));
        *s = kept;
    }
}

/// Whether a text is a number: trimmed, it reads as an `i64`.
pub fn is_numeric(text: &str) -> (b: bool)
    ensures
        b == parsed_i64(trimmed(text@)) is Some,
{
    parse_i64(trim_text(text)).is_some()
}

/// The value a text field holds: the integer it writes, or 0.
pub open spec fn field_value(s: Seq<char>) -> i64 {
    match parsed_i64(s) {
        Some(v) => v,
        None => 0,
    }
}

/// The value a text field holds: the integer it writes, or 0.
pub fn parse_or_zero(text: &str) -> (v: i64)
    ensures
        v == field_value(text@),
{
    match parse_i64(text) {
        Some(v) => v,
        None => 0,
    }
}

} // verus!
