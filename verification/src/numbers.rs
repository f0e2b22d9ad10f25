//! Numbers written as text and read from it.

use vstd::prelude::*;

verus! {

// ---------------------------------------------------------------------------
// Writing
// ---------------------------------------------------------------------------
/// The character that stands for the digit `d` (upper case from ten on).
pub open spec fn digit_char(d: int) -> char {
    if d < 10 {
        ('0' as u32 + d) as char
    } else {
        ('A' as u32 + (d - 10)) as char
    }
}

/// The decimal notation of `n`, without leading zeros.
pub open spec fn decimal(n: nat) -> Seq<char>
    decreases n,
{
    if n < 10 {
        seq![digit_char(n as int)]
    } else {
        decimal(n / 10).push(digit_char((n % 10) as int))
    }
}

/// The decimal notation of a signed number: a minus sign only where it is negative.
pub open spec fn signed_decimal(n: int) -> Seq<char> {
    if n < 0 {
        seq!['-'] + decimal((-n) as nat)
    } else {
        decimal(n as nat)
    }
}

/// The two upper-case hexadecimal digits of a byte.
pub open spec fn hex_byte(b: u8) -> Seq<char> {
    seq![digit_char(b as int / 16), digit_char(b as int % 16)]
}

/// The digit `d` as a character.
fn digit_of(d: u8) -> (r: char)
    requires
        d < 16,
    ensures
        r == digit_char(d as int),
{
    if d < 10 {
        (48u8 + d) as char
    } else {
        (65u8 + (d - 10)) as char
    }
}

/// Appends the decimal notation of `n`.
pub fn push_decimal(out: &mut String, n: u64)
    ensures
        final(out)@ == old(out)@ + decimal(n as nat),
    decreases n,
{
    if n < 10 {
        out.push(digit_of(n as u8));
        assert(out@ == old(out)@ + decimal(n as nat));
    } else {
        push_decimal(out, n / 10);
        out.push(digit_of((n % 10) as u8));
        assert(out@ == old(out)@ + decimal(n as nat));
    }
}

/// Appends the decimal notation of a signed number.
pub fn push_signed(out: &mut String, n: i32)
    ensures
        final(out)@ == old(out)@ + signed_decimal(n as int),
{
    if n < 0 {
        out.push('-');
        let magnitude: i64 = -(n as i64);
        push_decimal(out, magnitude as u64);
        assert(out@ == old(out)@ + signed_decimal(n as int));
    } else {
        push_decimal(out, n as u64);
    }
}

/// Appends the two hexadecimal digits of a byte.
pub fn push_hex(out: &mut String, b: u8)
    ensures
        final(out)@ == old(out)@ + hex_byte(b),
{
    out.push(digit_of(b / 16));
    out.push(digit_of(b % 16));
    assert(out@ == old(out)@ + hex_byte(b));
}

// ---------------------------------------------------------------------------
// Reading
// ---------------------------------------------------------------------------
/// What a character counts as a digit in the given radix, if it is one; letters
/// stand for ten and up, in either case.
pub open spec fn digit_value(c: char, radix: int) -> Option<int> {
    let d = if '0' <= c <= '9' {
        c as int - '0' as int
    } else if 'a' <= c <= 'z' {
        c as int - 'a' as int + 10
    } else if 'A' <= c <= 'Z' {
        c as int - 'A' as int + 10
    } else {
        radix
    };
    if d < radix {
        Some(d)
    } else {
        None
    }
}

/// Every character is a digit of the radix.
pub open spec fn all_digits(s: Seq<char>, radix: int) -> bool {
    forall|i: int| 0 <= i < s.len() ==> digit_value(#[trigger] s[i], radix) is Some
}

/// The number that a run of digits denotes.
pub open spec fn number(s: Seq<char>, radix: int) -> int
    decreases s.len(),
{
    if s.len() == 0 {
        0
    } else {
        number(s.drop_last(), radix) * radix + digit_value(s.last(), radix)->0
    }
}

/// A run of one digit or more that denotes at most `max`, as its number.
pub open spec fn magnitude(s: Seq<char>, radix: int, max: int) -> Option<int> {
    if s.len() > 0 && all_digits(s, radix) && number(s, radix) <= max {
        Some(number(s, radix))
    } else {
        None
    }
}

/// `s` without one leading plus sign.
pub open spec fn without_plus(s: Seq<char>) -> Seq<char> {
    if s.len() > 0 && s[0] == '+' {
        s.skip(1)
    } else {
        s
    }
}

/// The number in `0..=max` that `s` denotes: digits behind an optional plus sign.
pub open spec fn unsigned(s: Seq<char>, radix: int, max: int) -> Option<int> {
    magnitude(without_plus(s), radix, max)
}

/// The `i32` that `s` denotes in decimal, with an optional sign.
pub open spec fn signed(s: Seq<char>) -> Option<int> {
    if s.len() > 0 && s[0] == '-' {
        match magnitude(s.skip(1), 10, -(i32::MIN as int)) {
            Some(m) => Some(-m),
            None => None,
        }
    } else {
        unsigned(s, 10, i32::MAX as int)
    }
}

/// A number does not get smaller by writing more digits behind it.
proof fn lemma_number_grows(s: Seq<char>, radix: int, i: int)
    requires
        2 <= radix,
        all_digits(s, radix),
        0 <= i <= s.len(),
    ensures
        0 <= number(s.take(i), radix) <= number(s, radix),
    decreases s.len(),
{
    if s.len() > 0 {
        let t = s.drop_last();
        assert(digit_value(s[s.len() - 1], radix) is Some);
        assert forall|j: int| 0 <= j < t.len() implies digit_value(#[trigger] t[j], radix) is Some by {
            assert(t[j] == s[j]);
        }
        lemma_number_grows(t, radix, if i < s.len() { i } else { t.len() as int });
        assert(number(t, radix) <= number(t, radix) * radix) by (nonlinear_arith)
            requires
                0 <= number(t, radix),
                2 <= radix,
        ;
        assert(0 <= digit_value(s.last(), radix)->0);
        if i < s.len() {
            assert(s.take(i) == t.take(i));
        } else {
            assert(s.take(i) == s);
            assert(t.take(t.len() as int) == t);
        }
    } else {
        assert(s.take(i) == s);
    }
}

/// What is read as an unsigned number lies in its range.
pub proof fn law_unsigned_in_range(s: Seq<char>, radix: int, max: int)
    requires
        2 <= radix,
    ensures
        unsigned(s, radix, max) matches Some(n) ==> 0 <= n <= max,
{
    let t = without_plus(s);
    if all_digits(t, radix) {
        lemma_number_grows(t, radix, 0);
        assert(t.take(0) == Seq::<char>::empty());
    }
}

/// The digit that a character stands for.
fn digit_in(c: char, radix: u64) -> (r: Option<u64>)
    requires
        2 <= radix <= 36,
    ensures
        digit_value(c, radix as int) == (match r {
            Some(d) => Some(d as int),
            None => None,
        }),
        r is Some ==> r->0 < radix,
{
    let d: u64 = if '0' <= c && c <= '9' {
        c as u64 - 48
    } else if 'a' <= c && c <= 'z' {
        c as u64 - 97 + 10
    } else if 'A' <= c && c <= 'Z' {
        c as u64 - 65 + 10
    } else {
        radix
    };
    if d < radix {
        Some(d)
    } else {
        None
    }
}

/// Reads the digits of `chars` from `from` on.
fn read_magnitude(chars: &[char], from: usize, radix: u64, max: u64) -> (r: Option<u64>)
    requires
        2 <= radix <= 36,
        max <= 0x1_0000_0000,
        from <= chars@.len(),
    ensures
        magnitude(chars@.skip(from as int), radix as int, max as int) == (match r {
            Some(v) => Some(v as int),
            None => None,
        }),
{
    let ghost s = chars@.skip(from as int);
    if from == chars.len() {
        return None;
    }
    let mut acc: u64 = 0;
    let mut i: usize = from;
    while i < chars.len()
        invariant
            2 <= radix <= 36,
            max <= 0x1_0000_0000,
            from <= i <= chars@.len(),
            s == chars@.skip(from as int),
            s.len() > 0,
            acc == number(s.take(i - from), radix as int),
            acc <= max,
            all_digits(s.take(i - from), radix as int),
        decreases chars@.len() - i,
    {
        let ghost k = i - from;
        let ghost t = s.take(k + 1);
        proof {
            assert(t.drop_last() == s.take(k));
            assert(t.last() == chars@[i as int]);
            assert(s[k] == chars@[i as int]);
        }
        match digit_in(chars[i], radix) {
            None => {
                assert(!all_digits(s, radix as int));
                return None;
            },
            Some(d) => {
                assert(acc * radix <= 0x1_0000_0000 * 36) by (nonlinear_arith)
                    requires
                        acc <= 0x1_0000_0000,
                        radix <= 36,
                ;
                acc = acc * radix + d;
                assert(acc == number(t, radix as int));
                assert forall|j: int| 0 <= j < t.len() implies digit_value(
                    #[trigger] t[j],
                    radix as int,
                ) is Some by {
                    if j < k {
                        assert(t[j] == s.take(k)[j]);
                    }
                }
                if acc > max {
                    proof {
                        if all_digits(s, radix as int) {
                            lemma_number_grows(s, radix as int, k + 1);
                        }
                    }
                    return None;
                }
            },
        }
        i += 1;
    }
    assert(s.take(s.len() as int) == s);
    Some(acc)
}

/// Reads an unsigned number of at most `max`.
pub fn read_unsigned(chars: &[char], radix: u64, max: u64) -> (r: Option<u64>)
    requires
        2 <= radix <= 36,
        max <= 0x1_0000_0000,
    ensures
        unsigned(chars@, radix as int, max as int) == (match r {
            Some(v) => Some(v as int),
            None => None,
        }),
{
    if chars.len() > 0 && chars[0] == '+' {
        read_magnitude(chars, 1, radix, max)
    } else {
        assert(chars@.skip(0) == chars@);
        read_magnitude(chars, 0, radix, max)
    }
}

/// Reads an `i32` in decimal.
pub fn read_signed(chars: &[char]) -> (r: Option<i32>)
    ensures
        signed(chars@) == (match r {
            Some(v) => Some(v as int),
            None => None,
        }),
{
    if chars.len() > 0 && chars[0] == '-' {
        match read_magnitude(chars, 1, 10, 0x8000_0000) {
            Some(m) => {
                let v: i64 = -(m as i64);
                Some(v as i32)
            },
            None => None,
        }
    } else {
        match read_unsigned(chars, 10, 0x7fff_ffff) {
            Some(m) => Some(m as i32),
            None => None,
        }
    }
}

/// The decimal notation of a number reads back as that number.
pub proof fn law_decimal_reads_back(n: nat)
    ensures
        decimal(n).len() > 0,
        all_digits(decimal(n), 10),
        number(decimal(n), 10) == n,
        forall|max: int| n <= max ==> #[trigger] unsigned(decimal(n), 10, max) == Some(n as int),
    decreases n,
{
    let s = decimal(n);
    if n < 10 {
        assert(s.drop_last() == Seq::<char>::empty());
        assert(number(s.drop_last(), 10) == 0);
        assert(digit_value(s[0], 10) == Some(n as int));
    } else {
        law_decimal_reads_back(n / 10);
        let t = decimal(n / 10);
        assert(s.drop_last() == t);
        assert(digit_value(s.last(), 10) == Some((n % 10) as int));
        assert forall|i: int| 0 <= i < s.len() implies digit_value(#[trigger] s[i], 10) is Some by {
            if i < t.len() {
                assert(s[i] == t[i]);
            }
        }
    }
    assert(digit_value(s[0], 10) is Some);
    assert(without_plus(s) == s);
}

/// The hexadecimal notation of a byte reads back as that byte.
pub proof fn law_hex_byte_reads_back(b: u8)
    ensures
        unsigned(hex_byte(b), 16, 255) == Some(b as int),
{
    let s = hex_byte(b);
    assert(s.drop_last() == seq![s[0]]);
    assert(s.drop_last().drop_last() == Seq::<char>::empty());
    assert(digit_value(s[0], 16) == Some(b as int / 16));
    assert(digit_value(s[1], 16) == Some(b as int % 16));
    assert(without_plus(s) == s);
    reveal_with_fuel(number, 3);
}

/// The signed decimal notation of an `i32` reads back as that number.
pub proof fn law_signed_decimal_reads_back(n: i32)
    ensures
        signed(signed_decimal(n as int)) == Some(n as int),
{
    let s = signed_decimal(n as int);
    if n < 0 {
        law_decimal_reads_back((-n) as nat);
        assert(s.skip(1) == decimal((-n) as nat));
    } else {
        law_decimal_reads_back(n as nat);
        assert(digit_value(s[0], 10) is Some);
    }
}

/// The digits below ten are the characters from U+0030 on, the letters from U+0041 on and
/// from U+0061 on stand for ten and up; no other character is a digit, and none counts as
/// much as the radix.
pub proof fn law_digits(c: char, radix: int, d: int)
    requires
        2 <= radix <= 36,
    ensures
        digit_value(c, radix) == Some(d) <==> 0 <= d < radix && (if d < 10 {
            c as int == 0x30 + d
        } else {
            c as int == 0x41 + (d - 10) || c as int == 0x61 + (d - 10)
        }),
        digit_value(c, radix) matches Some(v) ==> 0 <= v < radix,
{
}

/// The digits that are written: the figures, and from ten on the capital letters.
pub proof fn law_written_digits(d: int)
    requires
        0 <= d < 16,
    ensures
        digit_char(d) as int == (if d < 10 {
            0x30 + d
        } else {
            0x41 + (d - 10)
        }),
{
}

/// A digit more makes a number as many times as great as the radix says, plus the digit.
pub proof fn law_number(s: Seq<char>, c: char, radix: int, d: int)
    requires
        digit_value(c, radix) == Some(d),
    ensures
        number(Seq::<char>::empty(), radix) == 0,
        number(seq![c], radix) == d,
        number(s.push(c), radix) == number(s, radix) * radix + d,
{
    assert(seq![c].drop_last() == Seq::<char>::empty());
    assert(s.push(c).drop_last() == s);
    reveal_with_fuel(number, 2);
}

/// The decimal notation of a figure is that figure, and a figure more is written behind
/// the others; there is no leading zero.
pub proof fn law_decimal(n: nat, d: nat)
    requires
        d < 10,
    ensures
        decimal(d) == seq![(0x30 + d) as char],
        n > 0 ==> decimal(10 * n + d) == decimal(n).push((0x30 + d) as char),
        n > 0 ==> decimal(n)[0] != '0',
    decreases n,
{
    if n > 0 {
        assert((10 * n + d) / 10 == n && (10 * n + d) % 10 == d);
        if n >= 10 {
            law_decimal(n / 10, d);
            law_decimal_reads_back(n / 10);
            assert(decimal(n)[0] == decimal(n / 10)[0]);
        }
    }
}

/// A byte is written with two figures, the greater first, and a negative number with a
/// minus sign before its distance from zero.
pub proof fn law_written_forms(b: u8, n: int)
    ensures
        hex_byte(b).len() == 2,
        digit_value(hex_byte(b)[0], 16) == Some((b / 16) as int),
        digit_value(hex_byte(b)[1], 16) == Some((b % 16) as int),
        forall|i: int| 0 <= i < 2 ==> !('a' <= #[trigger] hex_byte(b)[i] <= 'z'),
        n < 0 ==> signed_decimal(n) == seq!['-'] + decimal((-n) as nat),
        n >= 0 ==> signed_decimal(n) == decimal(n as nat),
{
}

/// What is read as an unsigned number: one digit or more and nothing else, up to the
/// greatest number allowed, with one plus sign before it or none.
pub proof fn law_unsigned(s: Seq<char>, radix: int, max: int, n: int)
    requires
        s.len() > 0 ==> s[0] != '+',
    ensures
        unsigned(s, radix, max) == Some(n) <==> {
            &&& s.len() > 0
            &&& forall|i: int| 0 <= i < s.len() ==> digit_value(#[trigger] s[i], radix) is Some
            &&& n == number(s, radix)
            &&& n <= max
        },
        unsigned(seq!['+'] + s, radix, max) == unsigned(s, radix, max),
        unsigned(seq!['+', '+'] + s, radix, max) is None,
{
    assert((seq!['+'] + s).skip(1) == s);
    let t = (seq!['+', '+'] + s).skip(1);
    assert(t[0] == '+' && digit_value('+', radix) is None);
}

/// What is read as a signed number: an unsigned one up to 2147483647, or, behind a minus
/// sign, digits up to 2147483648.
pub proof fn law_signed(s: Seq<char>, n: int)
    requires
        s.len() > 0 ==> s[0] != '+' && s[0] != '-',
    ensures
        signed(s) == Some(n) <==> unsigned(s, 10, 2147483647) == Some(n),
        signed(seq!['+'] + s) == signed(s),
        signed(seq!['-'] + s) == Some(n) <==> unsigned(s, 10, 2147483648) == Some(-n),
        signed(seq!['-', '+'] + s) is None,
        signed(seq!['-', '-'] + s) is None,
{
    assert((seq!['+'] + s).skip(1) == s);
    assert((seq!['-'] + s).skip(1) == s);
    let t = (seq!['-', '+'] + s).skip(1);
    assert(t[0] == '+' && digit_value('+', 10) is None);
    let u = (seq!['-', '-'] + s).skip(1);
    assert(u[0] == '-' && digit_value('-', 10) is None);
}

} // verus!
