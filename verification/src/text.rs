//! Rendering of numbers as text, on which the debug output of units rests.
use vstd::prelude::*;

verus! {

/// The lower-case hexadecimal digit of `n`, for `0 <= n < 16`.
pub open spec fn hex_digit(n: int) -> char {
    if n < 10 {
        (n + 0x30) as char
    } else {
        (n - 10 + 0x61) as char
    }
}

/// `value` as exactly `width` hexadecimal digits, the most significant first.
/// Digits of `value` beyond `width` are dropped.
pub open spec fn hex_fixed(value: int, width: nat) -> Seq<char>
    decreases width,
{
    if width == 0 {
        Seq::empty()
    } else {
        hex_fixed(value / 16, (width - 1) as nat).push(hex_digit(value % 16))
    }
}

/// `value` as hexadecimal digits without leading zeroes (one digit for zero).
pub open spec fn hex_min(value: int) -> Seq<char>
    decreases value,
{
    if value < 16 {
        seq![hex_digit(value)]
    } else {
        hex_min(value / 16).push(hex_digit(value % 16))
    }
}

/// `String::push`: appends one character to the string.
#[verifier::external_body]
pub(crate) fn push_char(s: &mut String, c: char)
    ensures
        final(s)@ == old(s)@.push(c),
{
    s.push(c)
}

/// `char::from_u32`: the character with the given scalar value, if there is
/// one, that is if the value is below 0x110000 and no surrogate.
#[verifier::external_body]
pub(crate) fn char_from_u32(value: u32) -> (c: Option<char>)
    ensures
        c is Some <==> vstd::utf8::is_scalar(value),
        c matches Some(ch) ==> ch as u32 == value && ch == value as char,
{
    char::from_u32(value)
}

/// Computes `hex_digit`.
pub fn hex_digit_char(n: u8) -> (c: char)
    requires
        n < 16,
    ensures
        c == hex_digit(n as int),
{
    if n < 10 {
        (n + 0x30) as char
    } else {
        (n - 10 + 0x61) as char
    }
}

/// Appends `hex_fixed(value, width)` to `out`.
pub fn push_hex_fixed(out: &mut String, value: u32, width: u8)
    requires
        width <= 8,
    ensures
        final(out)@ == old(out)@ + hex_fixed(value as int, width as nat),
{
    let mut i: u8 = width;
    while i > 0
        invariant
            i <= width <= 8,
            out@ == old(out)@ + hex_fixed(shifted(value as int, i as nat), (width - i) as nat),
        decreases i,
    {
        i = i - 1;
        let sh: u32 = 4 * (i as u32);
        let d: u8 = ((value >> sh) & 0xf) as u8;
        proof {
            lemma_shift_digit(value, sh);
        }
        let c = hex_digit_char(d);
        push_char(out, c);
    }
}

/// `value` without its `k` least significant hexadecimal digits.
pub open spec fn shifted(value: int, k: nat) -> int
    decreases k,
{
    if k == 0 {
        value
    } else {
        shifted(value, (k - 1) as nat) / 16
    }
}

/// A hexadecimal digit of `value`, in terms of shifting and masking.
proof fn lemma_shift_digit(value: u32, sh: u32)
    requires
        sh <= 28,
        sh % 4 == 0,
    ensures
        ((value >> sh) & 0xf) < 16,
        ((value >> sh) & 0xf) as int == shifted(value as int, sh as nat / 4) % 16,
{
    lemma_shifted_is_shr(value, sh);
    let s = value >> sh;
    assert(s & 0xf == s % 16) by (bit_vector);
}

/// To drop hexadecimal digits is to shift by four bits for each.
proof fn lemma_shifted_is_shr(value: u32, sh: u32)
    requires
        sh <= 28,
        sh % 4 == 0,
    ensures
        (value >> sh) as int == shifted(value as int, sh as nat / 4),
    decreases sh,
{
    if sh == 0 {
        assert(value >> 0u32 == value) by (bit_vector);
    } else {
        let j: u32 = (sh - 4) as u32;
        lemma_shifted_is_shr(value, j);
        assert(j <= 24 && sh == j + 4 ==> (value >> sh) == (value >> j) / 16) by (bit_vector);
    }
}

/// The number of hexadecimal digits of `value` without leading zeroes.
pub open spec fn hex_width(value: int) -> nat
    decreases value,
{
    if value < 16 {
        1
    } else {
        hex_width(value / 16) + 1
    }
}

/// Without leading zeroes a number has `hex_width` digits, and they are its
/// last `hex_width` digits.
pub proof fn lemma_hex_min_is_fixed(value: int)
    requires
        0 <= value,
    ensures
        hex_min(value) == hex_fixed(value, hex_width(value)),
    decreases value,
{
    if value < 16 {
        assert(hex_fixed(value / 16, 0) =~= Seq::empty());
    } else {
        lemma_hex_min_is_fixed(value / 16);
    }
}

/// Appends `hex_min(value)` to `out`.
pub fn push_hex_min(out: &mut String, value: u32)
    ensures
        final(out)@ == old(out)@ + hex_min(value as int),
{
    let mut width: u8 = 1;
    let mut rest: u32 = value;
    while rest >= 16
        invariant
            1 <= width <= 8,
            rest as int == shifted(value as int, (width - 1) as nat),
            hex_width(value as int) == hex_width(rest as int) + width - 1,
            (rest as int) * pow16((width - 1) as nat) <= value,
        decreases rest,
    {
        proof {
            lemma_pow16_bound(rest as int, value as int, (width - 1) as nat);
        }
        rest = rest / 16;
        width = width + 1;
    }
    proof {
        lemma_hex_min_is_fixed(value as int);
    }
    push_hex_fixed(out, value, width);
}

/// Sixteen to the power `k`.
pub open spec fn pow16(k: nat) -> int
    decreases k,
{
    if k == 0 {
        1
    } else {
        16 * pow16((k - 1) as nat)
    }
}

/// A number of 32 bits has no more than eight hexadecimal digits.
proof fn lemma_pow16_bound(rest: int, value: int, k: nat)
    requires
        16 <= rest,
        rest * pow16(k) <= value,
        value <= 0xffff_ffff,
    ensures
        k < 7,
        (rest / 16) * pow16(k + 1) <= value,
{
    lemma_pow16_positive(k);
    assert((rest / 16) * pow16(k + 1) <= rest * pow16(k)) by (nonlinear_arith)
        requires
            pow16(k + 1) == 16 * pow16(k),
            pow16(k) >= 0,
            rest >= 0,
    {
    }
    if k >= 7 {
        lemma_pow16_grows(7, k);
        assert(pow16(7) == 0x1000_0000) by {
            reveal_with_fuel(pow16, 8);
        }
        assert(rest * pow16(k) >= 16 * 0x1000_0000) by (nonlinear_arith)
            requires
                rest >= 16,
                pow16(k) >= 0x1000_0000,
        ;
    }
}

/// The powers of sixteen are positive.
proof fn lemma_pow16_positive(k: nat)
    ensures
        pow16(k) > 0,
    decreases k,
{
    if k > 0 {
        lemma_pow16_positive((k - 1) as nat);
    }
}

/// The powers of sixteen grow.
proof fn lemma_pow16_grows(a: nat, b: nat)
    requires
        a <= b,
    ensures
        pow16(a) <= pow16(b),
    decreases b,
{
    if a < b {
        lemma_pow16_grows(a, (b - 1) as nat);
        lemma_pow16_positive((b - 1) as nat);
    }
}

/// The value of the `k`-th byte of `value`, the least significant being the
/// first.
pub open spec fn byte_at(value: int, k: nat) -> int {
    shifted(value, 2 * k) % 256
}

/// `byte_at` in terms of shifting and masking.
pub proof fn lemma_byte_at(value: u32, k: u32)
    requires
        k < 4,
    ensures
        ((value >> (8 * k) as u32) & 0xff) as int == byte_at(value as int, k as nat),
        ((value >> (8 * k) as u32) & 0xff) < 256,
{
    let sh: u32 = (8 * k) as u32;
    lemma_shifted_is_shr(value, sh);
    let s = value >> sh;
    assert(s & 0xff == s % 256) by (bit_vector);
}

/// `value` as decimal digits without leading zeroes (one digit for zero).
pub open spec fn decimal(value: int) -> Seq<char>
    decreases value,
{
    if value < 10 {
        seq![hex_digit(value)]
    } else {
        decimal(value / 10).push(hex_digit(value % 10))
    }
}

/// Appends `decimal(value)` to `out`.
pub fn push_decimal(out: &mut String, value: usize)
    ensures
        final(out)@ == old(out)@ + decimal(value as int),
{
    let mut digits: Vec<char> = Vec::new();
    let mut rest: usize = value;
    // The digits, the least significant first.
    loop
        invariant_except_break
            decimal(value as int) == decimal(rest as int) + reversed(digits@),
        ensures
            decimal(value as int) == reversed(digits@),
        decreases rest,
    {
        if rest < 10 {
            let d = hex_digit_char(rest as u8);
            proof {
                assert(digits@.push(d).drop_last() =~= digits@);
            }
            digits.push(d);
            break ;
        }
        let d = hex_digit_char((rest % 10) as u8);
        proof {
            assert(digits@.push(d).drop_last() =~= digits@);
        }
        digits.push(d);
        rest = rest / 10;
    }
    let mut i: usize = digits.len();
    proof {
        assert(digits@.take(i as int) =~= digits@);
    }
    while i > 0
        invariant
            i <= digits@.len(),
            out@ + reversed(digits@.take(i as int)) == old(out)@ + reversed(digits@),
        decreases i,
    {
        i = i - 1;
        push_char(out, digits[i]);
        proof {
            assert(digits@.take(i + 1).drop_last() =~= digits@.take(i as int));
        }
    }
}

/// The items of a sequence, the last first.
pub open spec fn reversed(items: Seq<char>) -> Seq<char>
    decreases items.len(),
{
    if items.len() == 0 {
        Seq::empty()
    } else {
        seq![items.last()] + reversed(items.drop_last())
    }
}

} // verus!
