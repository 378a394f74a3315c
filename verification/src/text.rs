//! Rendering and reading of decimal numbers.

use vstd::prelude::*;

verus! {

/// The character of the decimal digit `d`.
pub open spec fn digit_char(d: int) -> char {
    (48 + d) as char
}

/// The decimal digits of `n`, most significant first, without leading zeros.
pub open spec fn decimal(n: nat) -> Seq<char>
    decreases n,
{
    if n < 10 {
        seq![digit_char(n as int)]
    } else {
        decimal(n / 10).push(digit_char((n % 10) as int))
    }
}

/// Appends one decimal digit.
pub fn append_digit(out: &mut String, d: u8)
    requires
        d < 10,
    ensures
        final(out)@ == old(out)@.push(digit_char(d as int)),
{
    proof {
        reveal_strlit("0");
        reveal_strlit("1");
        reveal_strlit("2");
        reveal_strlit("3");
        reveal_strlit("4");
        reveal_strlit("5");
        reveal_strlit("6");
        reveal_strlit("7");
        reveal_strlit("8");
        reveal_strlit("9");
    }
    let glyph: &str = match d {
        0 => "0",
        1 => "1",
        2 => "2",
        3 => "3",
        4 => "4",
        5 => "5",
        6 => "6",
        7 => "7",
        8 => "8",
        _ => "9",
    };
    assert(glyph@ =~= seq![digit_char(d as int)]);
    out.append(glyph);
    assert(out@ =~= old(out)@.push(digit_char(d as int)));
}

/// Appends the decimal digits of `n`.
pub fn append_decimal(out: &mut String, n: u128)
    ensures
        final(out)@ == old(out)@ + decimal(n as nat),
    decreases n,
{
    if n >= 10 {
        append_decimal(out, n / 10);
    }
    append_digit(out, (n % 10) as u8);
    assert(out@ =~= old(out)@ + decimal(n as nat));
}

/// The decimal notation of `n`, with a minus sign where it is negative.
pub open spec fn signed_decimal(n: int) -> Seq<char> {
    if n < 0 {
        seq!['-'] + decimal((-n) as nat)
    } else {
        decimal(n as nat)
    }
}

/// Appends the decimal notation of `n`.
pub fn append_signed(out: &mut String, n: i32)
    ensures
        final(out)@ == old(out)@ + signed_decimal(n as int),
{
    if n < 0 {
        proof {
            reveal_strlit("-");
        }
        out.append("-");
        append_decimal(out, (-(n as i64)) as u128);
        assert(out@ =~= old(out)@ + signed_decimal(n as int));
    } else {
        append_decimal(out, n as u128);
    }
}

/// Whether `c` is a decimal digit.
pub open spec fn is_digit(c: char) -> bool {
    '0' <= c <= '9'
}

/// Whether `s` is one decimal digit or more.
pub open spec fn all_digits(s: Seq<char>) -> bool {
    s.len() > 0 && forall|i: int| 0 <= i < s.len() ==> is_digit(#[trigger] s[i])
}

/// The number that a sequence of decimal digits denotes.
pub open spec fn digits_value(s: Seq<char>) -> nat
    decreases s.len(),
{
    if s.len() == 0 {
        0
    } else {
        10 * digits_value(s.drop_last()) + (s.last() as nat - '0' as nat) as nat
    }
}

/// `s` without the sign `sign` at its start, where it has one.
pub open spec fn strip_sign(s: Seq<char>, sign: char) -> Seq<char> {
    if s.len() > 0 && s[0] == sign {
        s.skip(1)
    } else {
        s
    }
}

/// The number of at most `max` that `s` denotes: decimal digits, after a plus sign
/// or none.
pub open spec fn unsigned_value(s: Seq<char>, max: int) -> Option<nat> {
    let digits = strip_sign(s, '+');
    if all_digits(digits) && digits_value(digits) <= max {
        Some(digits_value(digits))
    } else {
        None
    }
}

/// The first digits of a number denote at most the number.
proof fn lemma_digits_prefix(s: Seq<char>, k: int)
    requires
        0 <= k <= s.len(),
    ensures
        digits_value(s.take(k)) <= digits_value(s),
    decreases s.len() - k,
{
    if k < s.len() {
        lemma_digits_prefix(s, k + 1);
        assert(s.take(k + 1).drop_last() =~= s.take(k));
    } else {
        assert(s.take(k) =~= s);
    }
}

/// Reads decimal digits from the character at `start` on, up to the value `max`.
fn read_digits(s: &str, start: usize, max: u64) -> (r: Option<u64>)
    requires
        start <= s@.len(),
    ensures
        r is Some <==> all_digits(s@.skip(start as int)) && digits_value(s@.skip(start as int))
            <= max,
        r is Some ==> r->0 == digits_value(s@.skip(start as int)),
{
    let len: usize = s.unicode_len();
    if start == len {
        return None;
    }
    let ghost digits = s@.skip(start as int);
    let mut i: usize = start;
    let mut value: u64 = 0;
    while i < len
        invariant
            start <= i <= len,
            len == s@.len(),
            digits == s@.skip(start as int),
            forall|j: int| 0 <= j < i - start ==> is_digit(#[trigger] digits[j]),
            value == digits_value(digits.take(i - start)),
            value <= max,
        decreases len - i,
    {
        let c: char = s.get_char(i);
        assert(c == digits[i - start]);
        if !('0' <= c && c <= '9') {
            assert(!is_digit(digits[i - start]));
            return None;
        }
        let d: u64 = (c as u32 - 48) as u64;
        let wide: u128 = 10 * (value as u128) + d as u128;
        proof {
            assert(digits.take(i + 1 - start).drop_last() =~= digits.take(i - start));
            lemma_digits_prefix(digits, i + 1 - start);
        }
        if wide > max as u128 {
            return None;
        }
        value = wide as u64;
        i += 1;
    }
    assert(digits.take(len - start) =~= digits);
    Some(value)
}

/// Reads an unsigned decimal number of at most `max`.
pub fn parse_unsigned(s: &str, max: u64) -> (r: Option<u64>)
    ensures
        match r {
            Some(v) => unsigned_value(s@, max as int) == Some(v as nat),
            None => unsigned_value(s@, max as int) is None,
        },
{
    if s.unicode_len() > 0 && s.get_char(0) == '+' {
        read_digits(s, 1, max)
    } else {
        assert(s@.skip(0) =~= s@);
        read_digits(s, 0, max)
    }
}

/// The number in the range of an `i32` that `s` denotes: decimal digits, after a
/// plus sign, a minus sign or none.
pub open spec fn signed_value(s: Seq<char>) -> Option<int> {
    if s.len() > 0 && s[0] == '-' {
        let digits = s.skip(1);
        if all_digits(digits) && -digits_value(digits) >= i32::MIN {
            Some(-digits_value(digits))
        } else {
            None
        }
    } else {
        match unsigned_value(s, i32::MAX as int) {
            Some(v) => Some(v as int),
            None => None,
        }
    }
}

/// Reads a decimal number in the range of an `i32`.
pub fn parse_i32(s: &str) -> (r: Option<i32>)
    ensures
        match r {
            Some(v) => signed_value(s@) == Some(v as int),
            None => signed_value(s@) is None,
        },
{
    if s.unicode_len() > 0 && s.get_char(0) == '-' {
        match read_digits(s, 1, 0x8000_0000) {
            Some(v) => Some((-(v as i64)) as i32),
            None => None,
        }
    } else {
        match parse_unsigned(s, 0x7fff_ffff) {
            Some(v) => Some(v as i32),
            None => None,
        }
    }
}

/// A number is read back from its decimal digits, unless it exceeds the limit.
pub proof fn law_number_is_read_back(n: nat, max: int)
    ensures
        n <= max ==> unsigned_value(decimal(n), max) == Some(n),
        n > max ==> unsigned_value(decimal(n), max) is None,
{
    lemma_decimal_digits(n);
    assert(is_digit(decimal(n)[0]));
}

/// The decimal digits of `n` are digits, and they denote `n`.
proof fn lemma_decimal_digits(n: nat)
    ensures
        all_digits(decimal(n)),
        digits_value(decimal(n)) == n,
    decreases n,
{
    if n >= 10 {
        lemma_decimal_digits(n / 10);
        assert(decimal(n).drop_last() =~= decimal(n / 10));
    } else {
        assert(decimal(n).drop_last() =~= Seq::<char>::empty());
        assert(digits_value(Seq::<char>::empty()) == 0);
    }
    assert(decimal(n).last() == digit_char((n % 10) as int));
}

/// Ten to the power of `k`.
pub open spec fn ten_to(k: nat) -> nat
    decreases k,
{
    if k == 0 {
        1
    } else {
        10 * ten_to((k - 1) as nat)
    }
}

/// The digits of a number stand in their places: the last is the ones, the one before the tens,
/// and so on; each is a character from `0` to `9`, and a number of more than one digit does not
/// begin with a zero.
pub proof fn law_places(n: nat, k: nat)
    requires
        k < decimal(n).len(),
    ensures
        decimal(n)[decimal(n).len() - 1 - k] as nat == '0' as nat + n / ten_to(k) % 10,
        decimal(n).len() > 1 ==> decimal(n)[0] != '0',
    decreases n,
{
    if n >= 10 {
        let front = decimal(n / 10);
        if k > 0 {
            law_places(n / 10, (k - 1) as nat);
            let p = ten_to((k - 1) as nat);
            lemma_ten_to_positive((k - 1) as nat);
            assert(n / 10 / p == n / (10 * p)) by (nonlinear_arith)
                requires
                    p > 0,
            ;
            assert(decimal(n)[decimal(n).len() - 1 - k] == front[front.len() - 1 - (k - 1)]);
        } else {
            assert(n / 1 == n);
        }
        assert(decimal(n)[0] == front[0]);
        lemma_decimal_digits(n / 10);
        law_places(n / 10, 0);
        if n / 10 >= 10 {
            lemma_decimal_digits(n / 10 / 10);
            assert(front.len() > 1);
        } else {
            assert(n / 10 / 1 == n / 10);
            assert(front.len() == 1);
        }
    } else {
        assert(n / 1 == n);
    }
}

/// Ten to any power is positive.
proof fn lemma_ten_to_positive(k: nat)
    ensures
        ten_to(k) > 0,
    decreases k,
{
    if k > 0 {
        lemma_ten_to_positive((k - 1) as nat);
    }
}

/// A number in the range of an `i32` is read back from its notation, with or without a sign, and
/// one outside the range is not read.
pub proof fn law_signed_number_is_read_back(n: int)
    ensures
        i32::MIN <= n <= i32::MAX ==> signed_value(signed_decimal(n)) == Some(n),
        n < i32::MIN || n > i32::MAX ==> signed_value(signed_decimal(n)) is None,
{
    if n < 0 {
        let m = (-n) as nat;
        lemma_decimal_digits(m);
        assert((seq!['-'] + decimal(m)).skip(1) =~= decimal(m));
    } else {
        lemma_decimal_digits(n as nat);
        assert(is_digit(decimal(n as nat)[0]));
        law_number_is_read_back(n as nat, i32::MAX as int);
    }
}

/// What is read as a number consists of digits alone, behind at most one sign: nothing, a sign
/// alone and any other character make it no number. A plus sign and zeros in front change
/// nothing, and a number without a sign is never negative.
pub proof fn law_what_is_a_number(s: Seq<char>, max: int)
    ensures
        s.len() == 0 ==> unsigned_value(s, max) is None && signed_value(s) is None,
        s.len() == 1 && (s[0] == '+' || s[0] == '-') ==> unsigned_value(s, max) is None
            && signed_value(s) is None,
        forall|i: int|
            0 <= i < s.len() && !('0' <= #[trigger] s[i] <= '9') && !(i == 0 && s[i] == '+')
                ==> unsigned_value(s, max) is None,
        forall|i: int|
            0 <= i < s.len() && !('0' <= #[trigger] s[i] <= '9') && !(i == 0 && (s[i] == '+' || s[i]
                == '-')) ==> signed_value(s) is None,
        s.len() > 0 && '0' <= s[0] <= '9' ==> unsigned_value(seq!['+'] + s, max) == unsigned_value(
            s,
            max,
        ) && unsigned_value(seq!['0'] + s, max) == unsigned_value(s, max),
        unsigned_value(s, max) matches Some(v) ==> v <= max,
{
    assert forall|i: int|
        0 <= i < s.len() && !('0' <= #[trigger] s[i] <= '9') && !(i == 0 && s[i]
            == '+') implies unsigned_value(s, max) is None by {
        lemma_no_digit(s, max, i);
    }
    assert forall|i: int|
        0 <= i < s.len() && !('0' <= #[trigger] s[i] <= '9') && !(i == 0 && (s[i] == '+' || s[i]
            == '-')) implies signed_value(s) is None by {
        if s[0] == '-' {
            assert(s.skip(1)[i - 1] == s[i]);
            assert(!is_digit(s.skip(1)[i - 1]));
        } else {
            lemma_no_digit(s, i32::MAX as int, i);
        }
    }
    if s.len() > 0 && '0' <= s[0] <= '9' {
        assert((seq!['+'] + s).skip(1) =~= s);
        let z = seq!['0'] + s;
        lemma_leading_zero(s);
        if all_digits(s) {
            assert forall|i: int| 0 <= i < z.len() implies is_digit(#[trigger] z[i]) by {
                if i > 0 {
                    assert(z[i] == s[i - 1]);
                }
            }
        } else {
            let i = choose|i: int| 0 <= i < s.len() && !is_digit(#[trigger] s[i]);
            assert(z[i + 1] == s[i]);
        }
    }
}

/// A character that is no digit, and no plus sign in front, makes it no number.
proof fn lemma_no_digit(s: Seq<char>, max: int, i: int)
    requires
        0 <= i < s.len(),
        !is_digit(s[i]),
        !(i == 0 && s[i] == '+'),
    ensures
        unsigned_value(s, max) is None,
{
    let digits = strip_sign(s, '+');
    if s[0] == '+' {
        assert(digits[i - 1] == s[i]);
    } else {
        assert(digits[i] == s[i]);
    }
}

/// A zero in front changes nothing.
proof fn lemma_leading_zero(s: Seq<char>)
    ensures
        digits_value(seq!['0'] + s) == digits_value(s),
    decreases s.len(),
{
    let z = seq!['0'] + s;
    if s.len() == 0 {
        assert(z.drop_last() =~= Seq::<char>::empty());
        assert(digits_value(z.drop_last()) == 0);
    } else {
        assert(z.drop_last() =~= seq!['0'] + s.drop_last());
        lemma_leading_zero(s.drop_last());
    }
}

} // verus!
