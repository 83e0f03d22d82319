//! Numbers written as text.

use vstd::prelude::*;

verus! {

/// `String::push` of std: appends one character to the end of the string.
pub assume_specification[ String::push ](s: &mut String, c: char)
    ensures
        final(s)@ == old(s)@.push(c),
;

/// The character of one digit in base sixteen, in upper case.
pub open spec fn digit(d: int) -> char
    recommends
        0 <= d < 16,
{
    if d < 10 {
        ('0' as int + d) as char
    } else {
        ('A' as int + d - 10) as char
    }
}

/// A byte as two hexadecimal digits.
pub open spec fn hex2(b: u8) -> Seq<char> {
    seq![digit((b / 16) as int), digit((b % 16) as int)]
}

/// A 16-bit number as four hexadecimal digits.
pub open spec fn hex4(x: u16) -> Seq<char> {
    hex2((x / 256) as u8) + hex2((x % 256) as u8)
}

/// Bytes as hexadecimal digits, two for each, each pair followed by `sep`.
pub open spec fn hex_bytes(s: Seq<u8>, sep: Seq<char>) -> Seq<char>
    decreases s.len(),
{
    if s.len() == 0 {
        seq![]
    } else {
        hex_bytes(s.drop_last(), sep) + hex2(s.last()) + sep
    }
}

/// A number in decimal, without leading zeros.
pub open spec fn decimal(n: nat) -> Seq<char>
    decreases n,
{
    if n < 10 {
        seq![digit(n as int)]
    } else {
        decimal(n / 10).push(digit((n % 10) as int))
    }
}

/// Appends one digit.
fn push_digit(s: &mut String, d: u8)
    requires
        d < 16,
    ensures
        final(s)@ == old(s)@.push(digit(d as int)),
{
    if d < 10 {
        s.push((48u8 + d) as char);
    } else {
        s.push((55u8 + d) as char);
    }
}

/// Appends a byte as two hexadecimal digits.
pub fn push_hex2(s: &mut String, b: u8)
    ensures
        final(s)@ == old(s)@ + hex2(b),
{
    push_digit(s, b / 16);
    push_digit(s, b % 16);
    assert(s@ =~= old(s)@ + hex2(b));
}

/// Appends a 16-bit number as four hexadecimal digits.
pub fn push_hex4(s: &mut String, x: u16)
    ensures
        final(s)@ == old(s)@ + hex4(x),
{
    push_hex2(s, (x / 256) as u8);
    push_hex2(s, (x % 256) as u8);
    assert(s@ =~= old(s)@ + hex4(x));
}

/// Appends bytes as hexadecimal digits, each pair followed by `sep`.
pub fn push_hex_bytes(s: &mut String, bytes: &[u8], sep: &str)
    ensures
        final(s)@ == old(s)@ + hex_bytes(bytes@, sep@),
{
    let ghost start = s@;
    assert(s@ =~= start + hex_bytes(bytes@.take(0), sep@));
    for i in 0..bytes.len()
        invariant
            s@ == start + hex_bytes(bytes@.take(i as int), sep@),
    {
        push_hex2(s, bytes[i]);
        s.append(sep);
        assert(bytes@.take(i + 1).drop_last() =~= bytes@.take(i as int));
        assert(s@ =~= start + hex_bytes(bytes@.take(i + 1), sep@));
    }
    assert(bytes@.take(bytes@.len() as int) =~= bytes@);
}

/// Appends a number in decimal.
pub fn push_decimal(s: &mut String, n: u64)
    ensures
        final(s)@ == old(s)@ + decimal(n as nat),
    decreases n,
{
    if n >= 10 {
        push_decimal(s, n / 10);
    }
    push_digit(s, (n % 10) as u8);
    assert(s@ =~= old(s)@ + decimal(n as nat));
}

/// Different digits have different characters, and none of them is a full stop.
proof fn lemma_digit(a: int, b: int)
    requires
        0 <= a < 16,
        0 <= b < 16,
    ensures
        digit(a) == digit(b) ==> a == b,
        digit(a) != '.',
{
}

/// Different numbers have different hexadecimal digits.
pub proof fn lemma_hex4_injective(a: u16, b: u16)
    requires
        hex4(a) == hex4(b),
    ensures
        a == b,
{
    let (a1, a0) = ((a / 256) as u8, (a % 256) as u8);
    let (b1, b0) = ((b / 256) as u8, (b % 256) as u8);
    assert(hex4(a)[0] == digit((a1 / 16) as int) && hex4(b)[0] == digit((b1 / 16) as int));
    assert(hex4(a)[1] == digit((a1 % 16) as int) && hex4(b)[1] == digit((b1 % 16) as int));
    assert(hex4(a)[2] == digit((a0 / 16) as int) && hex4(b)[2] == digit((b0 / 16) as int));
    assert(hex4(a)[3] == digit((a0 % 16) as int) && hex4(b)[3] == digit((b0 % 16) as int));
    lemma_digit((a1 / 16) as int, (b1 / 16) as int);
    lemma_digit((a1 % 16) as int, (b1 % 16) as int);
    lemma_digit((a0 / 16) as int, (b0 / 16) as int);
    lemma_digit((a0 % 16) as int, (b0 % 16) as int);
}

/// Bytes without anything between them take two digits each, and different bytes have
/// different digits.
pub proof fn lemma_hex_bytes_injective(a: Seq<u8>, b: Seq<u8>)
    ensures
        hex_bytes(a, seq![]).len() == 2 * a.len(),
        hex_bytes(a, seq![]) == hex_bytes(b, seq![]) ==> a == b,
    decreases a.len(),
{
    let (x, y) = (hex_bytes(a, seq![]), hex_bytes(b, seq![]));
    if a.len() == 0 {
        if b.len() > 0 {
            assert(y.len() > 0);
        }
        assert(a.len() == b.len() ==> a =~= b);
    } else {
        lemma_hex_bytes_injective(a.drop_last(), b.drop_last());
        if x == y {
            let (p, q) = (a.last(), b.last());
            assert(b.len() > 0);
            assert(x.take(x.len() - 2) =~= hex_bytes(a.drop_last(), seq![]));
            assert(y.take(y.len() - 2) =~= hex_bytes(b.drop_last(), seq![]));
            assert(x[x.len() - 2] == digit((p / 16) as int) && x[x.len() - 1] == digit(
                (p % 16) as int,
            ));
            assert(y[y.len() - 2] == digit((q / 16) as int) && y[y.len() - 1] == digit(
                (q % 16) as int,
            ));
            lemma_digit((p / 16) as int, (q / 16) as int);
            lemma_digit((p % 16) as int, (q % 16) as int);
            assert(a =~= a.drop_last().push(p));
            assert(b =~= b.drop_last().push(q));
        }
    }
}

/// A character takes at most four bytes.
pub proof fn lemma_utf8_length(text: Seq<char>)
    ensures
        vstd::utf8::encode_utf8(text).len() <= 4 * text.len(),
    decreases text.len(),
{
    if text.len() > 0 {
        lemma_utf8_length(text.drop_first());
    }
}

/// A number in decimal has at least one digit, and no full stop.
pub proof fn lemma_decimal_digits(n: nat)
    ensures
        decimal(n).len() > 0,
        forall|i: int| 0 <= i < decimal(n).len() ==> #[trigger] decimal(n)[i] != '.',
    decreases n,
{
    if n < 10 {
        lemma_digit(n as int, 0);
    } else {
        lemma_decimal_digits(n / 10);
        lemma_digit((n % 10) as int, 0);
    }
}

/// Different numbers are written differently.
pub proof fn lemma_decimal_injective(a: nat, b: nat)
    requires
        decimal(a) == decimal(b),
    ensures
        a == b,
    decreases a,
{
    lemma_decimal_digits(a / 10);
    lemma_decimal_digits(b / 10);
    if a < 10 && b < 10 {
        assert(decimal(a)[0] == digit(a as int));
        assert(decimal(b)[0] == digit(b as int));
        lemma_digit(a as int, b as int);
    } else if a >= 10 && b >= 10 {
        assert(decimal(a).last() == digit((a % 10) as int));
        assert(decimal(b).last() == digit((b % 10) as int));
        lemma_digit((a % 10) as int, (b % 10) as int);
        assert(decimal(a / 10) =~= decimal(a).drop_last());
        assert(decimal(b / 10) =~= decimal(b).drop_last());
        lemma_decimal_injective(a / 10, b / 10);
    } else {
        assert(decimal(a).len() != decimal(b).len());
    }
}

/// What a character counts as a digit: `0` to `9`, then `A` to `F`.
pub open spec fn digit_value(c: char) -> int {
    if '0' <= c <= '9' {
        c as int - '0' as int
    } else if 'A' <= c <= 'F' {
        c as int - 'A' as int + 10
    } else {
        -1
    }
}

/// The number that digits write in a base, the most significant digit first.
pub open spec fn digits_value(text: Seq<char>, base: int) -> int
    decreases text.len(),
{
    if text.len() == 0 {
        0
    } else {
        base * digits_value(text.drop_last(), base) + digit_value(text.last())
    }
}

/// Whether a text consists of digits of a base.
pub open spec fn all_digits(text: Seq<char>, base: int) -> bool {
    forall|i: int| 0 <= i < text.len() ==> 0 <= #[trigger] digit_value(text[i]) < base
}

/// Every digit counts what it stands for.
pub proof fn law_digit_value(d: int)
    requires
        0 <= d < 16,
    ensures
        digit_value(digit(d)) == d,
{
}

/// A number in decimal is read back from its digits, of which the first is no zero unless
/// it is the only one.
pub proof fn law_decimal_reads_back(n: nat)
    ensures
        digits_value(decimal(n), 10) == n,
        all_digits(decimal(n), 10),
        decimal(n).len() >= 1,
        decimal(n).len() > 1 ==> decimal(n)[0] != '0',
    decreases n,
{
    let s = decimal(n);
    if n < 10 {
        law_digit_value(n as int);
        assert(s.drop_last() =~= seq![]);
        assert(digits_value(s.drop_last(), 10) == 0);
        assert(s.last() == digit(n as int));
    } else {
        let last = (n % 10) as int;
        law_decimal_reads_back(n / 10);
        law_digit_value(last);
        assert(s.drop_last() =~= decimal(n / 10));
        assert(s.last() == digit(last));
        assert forall|i: int| 0 <= i < s.len() implies 0 <= #[trigger] digit_value(s[i]) < 10 by {
            if i < s.len() - 1 {
                assert(s[i] == decimal(n / 10)[i]);
                assert(0 <= digit_value(decimal(n / 10)[i]) < 10);
            }
        }
        if n / 10 < 10 {
            assert(s[0] == digit((n / 10) as int));
            law_digit_value((n / 10) as int);
        } else {
            assert(s[0] == decimal(n / 10)[0]);
            assert(decimal(n / 10).len() == decimal(n / 10 / 10).len() + 1);
            law_decimal_reads_back(n / 10 / 10);
        }
    }
}

/// A byte is read back from its two hexadecimal digits, a 16-bit number from its four.
pub proof fn law_hex_reads_back(b: u8, x: u16)
    ensures
        hex2(b).len() == 2,
        all_digits(hex2(b), 16),
        digits_value(hex2(b), 16) == b,
        hex4(x).len() == 4,
        all_digits(hex4(x), 16),
        digits_value(hex4(x), 16) == x,
{
    reveal_with_fuel(digits_value, 5);
    law_digit_value((b / 16) as int);
    law_digit_value((b % 16) as int);
    let (h, l) = ((x / 256) as u8, (x % 256) as u8);
    law_digit_value((h / 16) as int);
    law_digit_value((h % 16) as int);
    law_digit_value((l / 16) as int);
    law_digit_value((l % 16) as int);
    let s = hex4(x);
    let t = hex2(b);
    assert(t.drop_last() =~= seq![t[0]]);
    assert(t.drop_last().drop_last() =~= seq![]);
    assert(s.drop_last() =~= seq![s[0], s[1], s[2]]);
    assert(s.drop_last().drop_last() =~= seq![s[0], s[1]]);
    assert(s.drop_last().drop_last().drop_last() =~= seq![s[0]]);
    assert(s.drop_last().drop_last().drop_last().drop_last() =~= seq![]);
    assert(s[0] == digit((h / 16) as int) && s[1] == digit((h % 16) as int));
    assert(s[2] == digit((l / 16) as int) && s[3] == digit((l % 16) as int));
}

/// The digits of bytes stand one pair after the other, each pair followed by the separator.
pub proof fn law_hex_bytes_layout(s: Seq<u8>, sep: Seq<char>, i: int)
    requires
        0 <= i < s.len(),
    ensures
        hex_bytes(s, sep).len() == s.len() * (2 + sep.len()),
        ({
            let at = i * (2 + sep.len());
            let text = hex_bytes(s, sep);
            &&& 0 <= at && at + 2 + sep.len() <= text.len()
            &&& digits_value(text.subrange(at, at + 2), 16) == s[i]
            &&& all_digits(text.subrange(at, at + 2), 16)
            &&& text.subrange(at + 2, at + 2 + sep.len()) == sep
        }),
    decreases s.len(),
{
    let w = 2 + sep.len();
    let n = s.len() - 1;
    let text = hex_bytes(s, sep);
    let init = hex_bytes(s.drop_last(), sep);
    lemma_hex_bytes_len(s, sep);
    lemma_hex_bytes_len(s.drop_last(), sep);
    assert(0 <= i * w && i * w + w <= s.len() * w && n * w + w == s.len() * w) by (nonlinear_arith)
        requires
            0 <= i < s.len(),
            n == s.len() - 1,
            w >= 2,
    ;
    let at = i * w;
    if i < n {
        law_hex_bytes_layout(s.drop_last(), sep, i);
        assert(text.subrange(at, at + 2) =~= init.subrange(at, at + 2));
        assert(text.subrange(at + 2, at + w) =~= init.subrange(at + 2, at + w));
    } else {
        law_hex_reads_back(s[i], 0);
        assert(text.subrange(at, at + 2) =~= hex2(s[i]));
        assert(text.subrange(at + 2, at + w) =~= sep);
    }
}

/// Each byte takes two digits and a separator.
proof fn lemma_hex_bytes_len(s: Seq<u8>, sep: Seq<char>)
    ensures
        hex_bytes(s, sep).len() == s.len() * (2 + sep.len()),
    decreases s.len(),
{
    if s.len() > 0 {
        let w = 2 + sep.len();
        lemma_hex_bytes_len(s.drop_last(), sep);
        assert((s.len() - 1) * w + w == s.len() * w) by (nonlinear_arith);
    } else {
        assert(0 * (2 + sep.len()) == 0) by (nonlinear_arith);
    }
}

} // verus!
