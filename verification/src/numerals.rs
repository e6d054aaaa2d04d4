//! Numbers as text, and text as numbers.

use vstd::arithmetic::power::{lemma_pow0, lemma_pow1, lemma_pow_adds, pow};
use vstd::prelude::*;

verus! {

/// The character of a decimal digit.
pub open spec fn digit(d: int) -> char {
    (48 + d) as char
}

/// A number in decimal, without leading zeros.
pub open spec fn decimal(n: nat) -> Seq<char>
    decreases n,
{
    if n < 10 {
        seq![digit(n as int)]
    } else {
        decimal(n / 10).push(digit((n % 10) as int))
    }
}

/// How far a number is from zero.
pub open spec fn magnitude(n: int) -> nat {
    if n < 0 { (-n) as nat } else { n as nat }
}

/// The sign that is written before a number: a minus, or nothing.
pub open spec fn sign(n: int) -> Seq<char> {
    if n < 0 { seq!['-'] } else { Seq::empty() }
}

/// A number in decimal, with a minus sign where it is negative.
pub open spec fn signed_decimal(n: int) -> Seq<char> {
    sign(n) + decimal(magnitude(n))
}

/// `c`, `n` times over; nothing where `n` is negative.
pub open spec fn repeated(c: char, n: int) -> Seq<char> {
    Seq::new((if n > 0 { n } else { 0 }) as nat, |i: int| c)
}

/// A number in decimal, filled up with zeros behind its sign until it takes
/// `width` characters.
pub open spec fn zero_padded(n: int, width: int) -> Seq<char> {
    sign(n) + repeated('0', width - sign(n).len() - decimal(magnitude(n)).len()) + decimal(
        magnitude(n),
    )
}

/// Writes a decimal digit.
fn digit_char(d: u64) -> (c: char)
    requires
        d < 10,
    ensures
        c == digit(d as int),
{
    (48u8 + d as u8) as char
}

/// Writes a number in decimal.
pub fn decimal_chars(n: u64) -> (r: Vec<char>)
    ensures
        r@ == decimal(n as nat),
    decreases n,
{
    if n < 10 {
        let mut r: Vec<char> = Vec::new();
        r.push(digit_char(n));
        assert(r@ =~= seq![digit(n as int)]);
        r
    } else {
        let mut r = decimal_chars(n / 10);
        r.push(digit_char(n % 10));
        r
    }
}

/// Appends `c` to `r`, `n` times.
pub fn push_repeated(r: &mut Vec<char>, c: char, n: usize)
    ensures
        final(r)@ == old(r)@ + repeated(c, n as int),
{
    let ghost before = r@;
    let mut i: usize = 0;
    assert(r@ =~= before + repeated(c, 0));
    while i < n
        invariant
            i <= n,
            r@ == before + repeated(c, i as int),
        decreases n - i,
    {
        r.push(c);
        assert(r@ =~= before + repeated(c, i + 1));
        i += 1;
    }
}

/// How far a number is from zero.
fn magnitude_of(n: i64) -> (r: u64)
    ensures
        r == magnitude(n as int),
{
    if n < 0 {
        (-(n + 1)) as u64 + 1
    } else {
        n as u64
    }
}

/// Writes a number in decimal, with a minus sign where it is negative.
pub fn signed_chars(n: i64) -> (r: Vec<char>)
    ensures
        r@ == signed_decimal(n as int),
{
    let mut r: Vec<char> = Vec::new();
    if n < 0 {
        r.push('-');
    }
    assert(r@ =~= sign(n as int));
    let mut digits = decimal_chars(magnitude_of(n));
    r.append(&mut digits);
    r
}

/// Writes a number in decimal, filled up with zeros to `width` characters.
pub fn zero_padded_chars(n: i64, width: usize) -> (r: Vec<char>)
    ensures
        r@ == zero_padded(n as int, width as int),
{
    let mut r: Vec<char> = Vec::new();
    if n < 0 {
        r.push('-');
    }
    assert(r@ =~= sign(n as int));
    let mut digits = decimal_chars(magnitude_of(n));
    if r.len() < width && digits.len() < width - r.len() {
        let zeros: usize = width - r.len() - digits.len();
        push_repeated(&mut r, '0', zeros);
    } else {
        assert(r@ + repeated('0', width - sign(n as int).len() - digits@.len()) =~= r@);
    }
    r.append(&mut digits);
    r
}

/// Decimal digits are digits, and their value is the number that they were
/// written for.
pub(crate) proof fn lemma_decimal(n: nat)
    ensures
        decimal(n).len() >= 1,
        all_digits(decimal(n)),
        digits_value(decimal(n)) == n,
    decreases n,
{
    if n < 10 {
        let s = seq![digit(n as int)];
        assert(s.drop_last() =~= Seq::<char>::empty());
        assert(digits_value(s.drop_last()) == 0);
        assert(s.last() == digit(n as int));
    } else {
        lemma_decimal(n / 10);
        let s = decimal(n);
        assert(s.drop_last() =~= decimal(n / 10));
        assert forall|i: int| 0 <= i < s.len() implies '0' <= #[trigger] s[i] <= '9' by {
            if i < s.len() - 1 {
                assert(s[i] == decimal(n / 10)[i]);
            }
        }
    }
}

/// Zeros before a number do not change its value.
proof fn lemma_leading_zeros(k: int, s: Seq<char>)
    ensures
        digits_value(repeated('0', k) + s) == digits_value(s),
    decreases s.len(), k,
{
    if s.len() > 0 {
        lemma_leading_zeros(k, s.drop_last());
        assert((repeated('0', k) + s).drop_last() =~= repeated('0', k) + s.drop_last());
    } else if k > 0 {
        lemma_leading_zeros(k - 1, s);
        assert((repeated('0', k) + s).drop_last() =~= repeated('0', k - 1) + s);
    } else {
        assert(repeated('0', k) + s =~= s);
    }
}

/// Different numbers are written differently at the same width.
pub(crate) proof fn lemma_zero_padded_injective(a: int, b: int, width: int)
    requires
        zero_padded(a, width) == zero_padded(b, width),
    ensures
        a == b,
{
    let x = repeated('0', width - sign(a).len() - decimal(magnitude(a)).len()) + decimal(
        magnitude(a),
    );
    let y = repeated('0', width - sign(b).len() - decimal(magnitude(b)).len()) + decimal(
        magnitude(b),
    );
    lemma_decimal(magnitude(a));
    lemma_decimal(magnitude(b));
    lemma_leading_zeros(
        width - sign(a).len() - decimal(magnitude(a)).len(),
        decimal(magnitude(a)),
    );
    lemma_leading_zeros(
        width - sign(b).len() - decimal(magnitude(b)).len(),
        decimal(magnitude(b)),
    );
    assert(zero_padded(a, width) =~= sign(a) + x);
    assert(zero_padded(b, width) =~= sign(b) + y);
    assert('0' <= x[0] <= '9');
    assert('0' <= y[0] <= '9');
    assert((sign(a) + x)[0] == (sign(b) + y)[0]);
    assert(sign(a) =~= sign(b));
    assert(x =~= (sign(a) + x).skip(sign(a).len() as int));
    assert(y =~= (sign(b) + y).skip(sign(b).len() as int));
}

/// A number below a hundred takes two digits.
pub(crate) proof fn lemma_two_digits(n: int)
    requires
        0 <= n < 100,
    ensures
        zero_padded(n, 2) =~= seq![digit(n / 10), digit(n % 10)],
{
    reveal_with_fuel(decimal, 3);
    if n >= 10 {
        assert(decimal(n as nat) =~= seq![digit(n / 10), digit(n % 10)]);
    }
}

/// A number below ten thousand takes four digits.
pub(crate) proof fn lemma_four_digits(n: int)
    requires
        0 <= n < 10_000,
    ensures
        zero_padded(n, 4).len() == 4,
{
    reveal_with_fuel(decimal, 5);
}

/// The value of a run of decimal digits.
pub open spec fn digits_value(s: Seq<char>) -> nat
    decreases s.len(),
{
    if s.len() == 0 {
        0
    } else {
        digits_value(s.drop_last()) * 10 + (s.last() as u32 - 48) as nat
    }
}

/// Whether every character of `s` is a decimal digit.
pub open spec fn all_digits(s: Seq<char>) -> bool {
    forall|i: int| 0 <= i < s.len() ==> '0' <= #[trigger] s[i] <= '9'
}

/// `s` without a plus sign at its front.
pub open spec fn unsigned_part(s: Seq<char>) -> Seq<char> {
    if s.len() > 0 && s.first() == '+' { s.drop_first() } else { s }
}

/// The number that `s` is written as: decimal digits, at least one, that stay
/// within 32 bits, after a plus sign or none.
pub open spec fn parsed_u32(s: Seq<char>) -> Option<u32> {
    let digits = unsigned_part(s);
    if digits.len() > 0 && all_digits(digits) && digits_value(digits) <= u32::MAX {
        Some(digits_value(digits) as u32)
    } else {
        None
    }
}

proof fn lemma_longer_is_larger(s: Seq<char>, n: int)
    requires
        0 <= n <= s.len(),
    ensures
        digits_value(s.take(n)) <= digits_value(s),
    decreases s.len(),
{
    if n == s.len() {
        assert(s.take(n) =~= s);
    } else {
        lemma_longer_is_larger(s.drop_last(), n);
        assert(s.drop_last().take(n) =~= s.take(n));
    }
}

/// Reads a number of 32 bits.
pub fn parse_u32(s: &[char]) -> (r: Option<u32>)
    ensures
        r == parsed_u32(s@),
{
    let start: usize = if s.len() > 0 && s[0] == '+' { 1 } else { 0 };
    let digits = &s[start..s.len()];
    assert(digits@ =~= unsigned_part(s@));
    if digits.len() == 0 {
        return None;
    }
    let mut value: u32 = 0;
    let mut i: usize = 0;
    while i < digits.len()
        invariant
            i <= digits@.len(),
            digits@ == unsigned_part(s@),
            digits@.len() > 0,
            value == digits_value(digits@.take(i as int)),
            forall|j: int| 0 <= j < i ==> '0' <= #[trigger] digits@[j] <= '9',
        decreases digits@.len() - i,
    {
        let c = digits[i];
        if !('0' <= c && c <= '9') {
            return None;
        }
        let next: u64 = value as u64 * 10 + (c as u32 - 48) as u64;
        proof {
            assert(digits@.take(i + 1).drop_last() =~= digits@.take(i as int));
            lemma_longer_is_larger(digits@, i + 1);
        }
        if next > u32::MAX as u64 {
            return None;
        }
        value = next as u32;
        i += 1;
    }
    assert(digits@.take(digits@.len() as int) =~= digits@);
    Some(value)
}

/// The character of a hexadecimal digit, in upper case.
pub open spec fn hex_digit(d: int) -> char {
    if d < 10 { (48 + d) as char } else { (55 + d) as char }
}

/// A byte as two hexadecimal digits, in upper case.
pub open spec fn hex_byte(b: int) -> Seq<char> {
    seq![hex_digit(b / 16), hex_digit(b % 16)]
}

/// Writes a hexadecimal digit, in upper case.
pub fn hex_digit_char(d: u8) -> (c: char)
    requires
        d < 16,
    ensures
        c == hex_digit(d as int),
{
    if d < 10 {
        (48u8 + d) as char
    } else {
        (55u8 + d) as char
    }
}

/// The ten decimal digits, in order.
pub open spec fn ten_digits() -> Seq<char> {
    seq!['0', '1', '2', '3', '4', '5', '6', '7', '8', '9']
}

/// A number is written digit by digit: one digit more is ten times the number
/// before it, and that digit. Only zero begins with a zero.
pub proof fn law_decimal_is_positional(n: nat, d: int)
    requires
        0 <= d < 10,
    ensures
        decimal(d as nat) == seq![ten_digits()[d]],
        n > 0 ==> decimal((10 * n + d) as nat) == decimal(n).push(ten_digits()[d]),
        n > 0 ==> decimal(n).first() != '0',
{
    assert(ten_digits()[d] == digit(d));
    if n > 0 {
        assert((10 * n + d) / 10 == n);
        assert((10 * n + d) % 10 == d);
        lemma_no_leading_zero(n);
    }
}

proof fn lemma_no_leading_zero(n: nat)
    requires
        n > 0,
    ensures
        decimal(n).len() >= 1,
        decimal(n).first() != '0',
    decreases n,
{
    if n >= 10 {
        lemma_no_leading_zero(n / 10);
        assert(decimal(n).first() == decimal(n / 10).first());
    }
}

/// Digits count by their place: what stands before `k` more digits counts ten
/// to the power of `k` times as much, and one digit counts as itself.
pub proof fn law_digits_count_by_their_place(a: Seq<char>, b: Seq<char>, d: int)
    requires
        all_digits(a),
        all_digits(b),
        0 <= d < 10,
    ensures
        digits_value(a + b) == digits_value(a) * pow(10, b.len()) + digits_value(b),
        digits_value(seq![ten_digits()[d]]) == d,
    decreases b.len(),
{
    assert(seq![ten_digits()[d]].drop_last() =~= Seq::<char>::empty());
    assert(digits_value(Seq::<char>::empty()) == 0);
    if b.len() == 0 {
        assert(a + b =~= a);
        lemma_pow0(10);
    } else {
        let c = b.drop_last();
        assert forall|i: int| 0 <= i < c.len() implies '0' <= #[trigger] c[i] <= '9' by {
            assert(c[i] == b[i]);
        }
        law_digits_count_by_their_place(a, c, d);
        assert((a + b).drop_last() =~= a + c);
        assert((a + b).last() == b.last());
        lemma_pow_adds(10, c.len(), 1);
        lemma_pow1(10);
        assert(digits_value(a) * pow(10, c.len()) * 10 == digits_value(a) * (pow(10, c.len()) * 10))
            by (nonlinear_arith);
    }
}

/// A number that is written is read back as it was.
pub proof fn law_decimal_reads_back(n: nat)
    ensures
        decimal(n).len() >= 1,
        all_digits(decimal(n)),
        digits_value(decimal(n)) == n,
{
    lemma_decimal(n);
}

/// Different numbers are written differently, and the larger one is not the
/// shorter.
pub proof fn law_numbers_are_written_differently(a: nat, b: nat)
    ensures
        decimal(a) == decimal(b) <==> a == b,
        a <= b ==> decimal(a).len() <= decimal(b).len(),
    decreases b,
{
    lemma_decimal(a);
    lemma_decimal(b);
    if a <= b && b >= 10 {
        if a >= 10 {
            law_numbers_are_written_differently(a / 10, b / 10);
        } else {
            lemma_decimal(b / 10);
        }
    }
}

/// A negative number is its opposite behind a minus sign.
pub proof fn law_minus_sign(n: int)
    ensures
        n >= 0 ==> signed_decimal(n) == decimal(n as nat),
        n < 0 ==> signed_decimal(n) == seq!['-'] + decimal((-n) as nat),
{
    if n >= 0 {
        assert(signed_decimal(n) =~= decimal(n as nat));
    }
}

/// A number that is filled up takes the width, or as much as it takes by
/// itself where that is more, and stays the same number: a minus sign just
/// where it is negative, and digits that count as much as its own.
pub proof fn law_zero_padding_keeps_the_number(n: int, width: int)
    ensures
        ({
            let text = zero_padded(n, width);
            let own = signed_decimal(n).len();
            let digits = if n < 0 { text.skip(1) } else { text };
            &&& text.len() == (if width > own { width } else { own as int })
            &&& n < 0 ==> text.first() == '-'
            &&& all_digits(digits)
            &&& digits_value(digits) == (if n < 0 { -n } else { n })
        }),
{
    let own = decimal(magnitude(n));
    let zeros = width - sign(n).len() - own.len();
    lemma_decimal(magnitude(n));
    lemma_leading_zeros(zeros, own);
    let digits = repeated('0', zeros) + own;
    assert forall|i: int| 0 <= i < digits.len() implies '0' <= #[trigger] digits[i] <= '9' by {
        if i >= repeated('0', zeros).len() {
            assert(digits[i] == own[i - repeated('0', zeros).len()]);
        }
    }
    if n < 0 {
        assert(zero_padded(n, width).skip(1) =~= digits);
    } else {
        assert(zero_padded(n, width) =~= digits);
    }
}

/// Repeating a character gives so many of it and no other.
pub proof fn law_repeated_is_so_many(c: char, n: int)
    ensures
        repeated(c, n).len() == (if n > 0 { n } else { 0 }),
        forall|i: int| 0 <= i < repeated(c, n).len() ==> repeated(c, n)[i] == c,
{
}

/// Digits are the number that they count as, with zeros before it.
proof fn lemma_digits_are_decimal(s: Seq<char>)
    requires
        s.len() > 0,
        all_digits(s),
    ensures
        s == repeated('0', s.len() - decimal(digits_value(s)).len()) + decimal(digits_value(s)),
        decimal(digits_value(s)).len() <= s.len(),
    decreases s.len(),
{
    let t = s.drop_last();
    let c = s.last();
    let d = c as u32 - 48;
    assert('0' <= s[s.len() - 1] <= '9');
    let w = digits_value(t);
    let v = digits_value(s);
    assert(v == w * 10 + d);
    if t.len() == 0 {
        assert(w == 0);
        assert(s =~= repeated('0', 0) + decimal(v));
    } else {
        assert forall|i: int| 0 <= i < t.len() implies '0' <= #[trigger] t[i] <= '9' by {
            assert(t[i] == s[i]);
        }
        lemma_digits_are_decimal(t);
        if w == 0 {
            assert(decimal(v) =~= seq![c]);
            assert(decimal(w) =~= seq!['0']);
            assert(t =~= repeated('0', t.len() as int)) by {
                assert(t == repeated('0', t.len() - 1) + seq!['0']);
            }
            assert(s =~= t.push(c));
            assert(s =~= repeated('0', s.len() - 1) + decimal(v));
        } else {
            assert(v / 10 == w && v % 10 == d);
            assert(digit(d as int) == c);
            assert(decimal(v) == decimal(w).push(c));
            assert(s =~= t.push(c));
            assert(t == repeated('0', t.len() - decimal(w).len()) + decimal(w));
            assert(s =~= repeated('0', s.len() - decimal(v).len()) + decimal(v));
        }
    }
}

/// A number of 32 bits is read from its digits, whatever zeros or plus sign
/// stand before them, and a larger one is not.
pub proof fn law_number_is_read_as_written(n: nat, zeros: int)
    ensures
        ({
            let digits = repeated('0', zeros) + decimal(n);
            let r = if n <= u32::MAX { Some(n as u32) } else { None };
            parsed_u32(digits) == r && parsed_u32(seq!['+'] + digits) == r
        }),
{
    let digits = repeated('0', zeros) + decimal(n);
    lemma_decimal(n);
    lemma_leading_zeros(zeros, decimal(n));
    assert forall|i: int| 0 <= i < digits.len() implies '0' <= #[trigger] digits[i] <= '9' by {
        if i >= repeated('0', zeros).len() {
            assert(digits[i] == decimal(n)[i - repeated('0', zeros).len()]);
        }
    }
    assert('0' <= digits[0] <= '9');
    assert(unsigned_part(digits) == digits);
    assert((seq!['+'] + digits).drop_first() =~= digits);
}

/// Nothing else is read as a number: what is, is its digits behind zeros and a
/// plus sign, or behind either, or by themselves.
pub proof fn law_only_a_number_is_read(s: Seq<char>)
    ensures
        parsed_u32(s) matches Some(n) ==> {
            let digits = if s.first() == '+' { s.drop_first() } else { s };
            &&& decimal(n as nat).len() <= digits.len()
            &&& digits == repeated('0', digits.len() - decimal(n as nat).len()) + decimal(n as nat)
        },
{
    if let Some(n) = parsed_u32(s) {
        lemma_digits_are_decimal(unsigned_part(s));
    }
}

}
