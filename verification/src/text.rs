//! Small text-building helpers shared by the modules: concatenation, UTF-8
//! decoding of received bytes, and fixed-width hexadecimal numbers.
use vstd::prelude::*;
use vstd::utf8::*;

verus! {

broadcast use vstd::utf8::group_utf8_lib;

/// The concatenation of two texts.
pub fn concat2(a: &str, b: &str) -> (text: String)
    ensures
        text@ == a@ + b@,
{
    let mut text = String::from_str(a);
    text.append(b);
    text
}

/// The concatenation of three texts.
pub fn concat3(a: &str, b: &str, c: &str) -> (text: String)
    ensures
        text@ == a@ + b@ + c@,
{
    let mut text = String::from_str(a);
    text.append(b);
    text.append(c);
    text
}

/// Decodes UTF-8 bytes into an owned text (`std::str::from_utf8`, then
/// `to_owned`). The standard library documents that decoding succeeds exactly
/// for valid UTF-8 and that the text holds the encoded characters.
#[verifier::external_body]
pub fn utf8_text(bytes: &[u8]) -> (text: Option<String>)
    ensures
        text is Some <==> valid_utf8(bytes@),
        text matches Some(t) ==> t@ == decode_utf8(bytes@),
{
    std::str::from_utf8(bytes).ok().map(|text| text.to_owned())
}

/// The characters of bytes that are all ASCII.
pub open spec fn ascii_chars(bytes: Seq<u8>) -> Seq<char> {
    Seq::new(bytes.len(), |i: int| bytes[i] as char)
}

/// Turns ASCII bytes into a text with the same characters.
pub fn ascii_text(bytes: &Vec<u8>) -> (text: String)
    requires
        forall|i: int| 0 <= i < bytes@.len() ==> bytes@[i] < 128,
    ensures
        text@ == ascii_chars(bytes@),
{
    let ghost chars = ascii_chars(bytes@);
    proof {
        assert(is_ascii_chars(chars));
        is_ascii_chars_encode_utf8(chars);
        assert(encode_utf8(chars) =~= bytes@);
        encode_utf8_valid_utf8(chars);
        encode_utf8_decode_utf8(chars);
    }
    match utf8_text(bytes.as_slice()) {
        Some(text) => text,
        None => {
            proof {
                assert(false);
            }
            String::new()
        },
    }
}

/// The lower-case hexadecimal digit for `d` (0 to 15).
pub open spec fn hex_digit(d: int) -> char {
    if d < 10 {
        (48 + d) as char
    } else {
        (87 + d) as char
    }
}

/// `value` in exactly `digits` lower-case hexadecimal digits (the low digits
/// when the value is wider).
pub open spec fn spec_hex(value: nat, digits: nat) -> Seq<char>
    decreases digits,
{
    if digits == 0 {
        Seq::empty()
    } else {
        spec_hex(value / 16, (digits - 1) as nat).push(hex_digit((value % 16) as int))
    }
}

/// `value` written as `0x` followed by `digits` hexadecimal digits.
pub open spec fn spec_prefixed_hex(value: nat, digits: nat) -> Seq<char> {
    seq!['0', 'x'] + spec_hex(value, digits)
}

proof fn lemma_hex_step(value: nat, digits: nat, i: nat)
    requires
        i < digits,
    ensures
        spec_hex(value, digits)[(digits - 1 - i) as int] == hex_digit(
            ((value / pow16(i)) % 16) as int,
        ),
        spec_hex(value, digits).len() == digits,
    decreases digits,
{
    lemma_hex_len(value, digits);
    lemma_hex_len(value / 16, (digits - 1) as nat);
    let prefix = spec_hex(value / 16, (digits - 1) as nat);
    assert(spec_hex(value, digits) == prefix.push(hex_digit((value % 16) as int)));
    if i == 0 {
        assert(pow16(0) == 1);
        assert(value / 1 == value);
    } else {
        lemma_hex_step(value / 16, (digits - 1) as nat, (i - 1) as nat);
        lemma_div_pow16(value, (i - 1) as nat);
        assert(spec_hex(value, digits)[(digits - 1 - i) as int] == prefix[((digits - 1) - 1 - (i
            - 1)) as int]);
    }
}

proof fn lemma_hex_len(value: nat, digits: nat)
    ensures
        spec_hex(value, digits).len() == digits,
    decreases digits,
{
    if digits > 0 {
        lemma_hex_len(value / 16, (digits - 1) as nat);
    }
}

/// Sixteen to the power `n`.
pub open spec fn pow16(n: nat) -> nat
    decreases n,
{
    if n == 0 {
        1
    } else {
        16 * pow16((n - 1) as nat)
    }
}

proof fn lemma_div_pow16(value: nat, n: nat)
    ensures
        (value / 16) / pow16(n) == value / pow16(n + 1),
        pow16(n) > 0,
    decreases n,
{
    reveal_with_fuel(pow16, 2);
    if n > 0 {
        lemma_div_pow16(value, (n - 1) as nat);
    }
    lemma_pow16_positive(n);
    vstd::arithmetic::div_mod::lemma_div_denominator(value as int, 16, pow16(n) as int);
    assert(16 * pow16(n) == pow16(n + 1));
}

proof fn lemma_pow16_positive(n: nat)
    ensures
        pow16(n) > 0,
    decreases n,
{
    if n > 0 {
        lemma_pow16_positive((n - 1) as nat);
    }
}

/// The ASCII byte of a hexadecimal digit.
fn hex_byte(d: u8) -> (byte: u8)
    requires
        d < 16,
    ensures
        byte as char == hex_digit(d as int),
        byte < 128,
{
    if d < 10 {
        48 + d
    } else {
        87 + d
    }
}

/// `value` in exactly `digits` lower-case hexadecimal digits.
pub fn hex(value: u128, digits: usize) -> (text: String)
    requires
        digits <= 32,
    ensures
        text@ == spec_hex(value as nat, digits as nat),
{
    let mut bytes: Vec<u8> = Vec::new();
    let mut k: usize = 0;
    while k < digits
        invariant
            k <= digits,
            bytes@.len() == k,
            forall|j: int| 0 <= j < bytes@.len() ==> bytes@[j] == 48,
        decreases digits - k,
    {
        bytes.push(48);
        k = k + 1;
    }
    let mut rest: u128 = value;
    let mut i: usize = 0;
    assert(value as nat / pow16(0) == value as nat) by {
        assert(pow16(0) == 1);
        assert(value as nat / 1 == value as nat);
    }
    while i < digits
        invariant
            digits <= 32,
            i <= digits,
            bytes@.len() == digits,
            rest as nat == value as nat / pow16(i as nat),
            forall|j: int| 0 <= j < bytes@.len() ==> bytes@[j] < 128,
            forall|j: int|
                digits - i <= j < digits ==> (bytes@[j] as char) == spec_hex(
                    value as nat,
                    digits as nat,
                )[j],
        decreases digits - i,
    {
        let d = (rest % 16) as u8;
        proof {
            lemma_hex_step(value as nat, digits as nat, i as nat);
            lemma_div_pow16(value as nat, i as nat);
        }
        bytes.set(digits - 1 - i, hex_byte(d));
        proof {
            lemma_pow16_positive(i as nat);
            vstd::arithmetic::div_mod::lemma_div_denominator(
                value as int,
                pow16(i as nat) as int,
                16,
            );
            assert(pow16(i as nat) * 16 == pow16((i + 1) as nat));
        }
        assert(rest as nat / 16 == value as nat / pow16((i + 1) as nat));
        rest = rest / 16;
        i = i + 1;
    }
    let text = ascii_text(&bytes);
    proof {
        lemma_hex_len(value as nat, digits as nat);
        assert(ascii_chars(bytes@) =~= spec_hex(value as nat, digits as nat));
    }
    text
}

/// `value` written as `0x` followed by `digits` hexadecimal digits.
pub fn prefixed_hex(value: u128, digits: usize) -> (text: String)
    requires
        digits <= 32,
    ensures
        text@ == spec_prefixed_hex(value as nat, digits as nat),
{
    let digits_text = hex(value, digits);
    let prefix = "0x";
    proof {
        reveal_strlit("0x");
    }
    let text = concat2(prefix, digits_text.as_str());
    assert(text@ =~= spec_prefixed_hex(value as nat, digits as nat));
    text
}

/// The decimal digits of `n`, as ASCII bytes.
pub open spec fn decimal_bytes(n: nat) -> Seq<u8>
    decreases n,
{
    if n < 10 {
        seq![(48 + n) as u8]
    } else {
        decimal_bytes(n / 10).push((48 + n % 10) as u8)
    }
}

/// `n` written in decimal.
pub open spec fn spec_decimal(n: nat) -> Seq<char> {
    ascii_chars(decimal_bytes(n))
}

proof fn lemma_decimal_ascii(n: nat)
    ensures
        forall|i: int| 0 <= i < decimal_bytes(n).len() ==> decimal_bytes(n)[i] < 128,
    decreases n,
{
    if n >= 10 {
        lemma_decimal_ascii(n / 10);
        let d = (n % 10) as int;
        assert(0 <= d < 10);
        assert(((48 + d) as u8) < 128);
        assert forall|i: int| 0 <= i < decimal_bytes(n).len() implies decimal_bytes(n)[i] < 128 by {
            if i < decimal_bytes(n / 10).len() {
                assert(decimal_bytes(n)[i] == decimal_bytes(n / 10)[i]);
            }
        }
    } else {
        assert(((48 + n) as u8) < 128);
    }
}

fn push_decimal(out: &mut Vec<u8>, value: u128)
    ensures
        final(out)@ == old(out)@ + decimal_bytes(value as nat),
    decreases value,
{
    if value < 10 {
        out.push(48 + value as u8);
        assert(out@ =~= old(out)@ + decimal_bytes(value as nat));
    } else {
        push_decimal(out, value / 10);
        out.push(48 + (value % 10) as u8);
        assert(out@ =~= old(out)@ + decimal_bytes(value as nat));
    }
}

/// `value` written in decimal.
pub fn decimal(value: u64) -> (text: String)
    ensures
        text@ == spec_decimal(value as nat),
{
    wide_decimal(value as u128)
}

/// `value` written in decimal.
pub fn wide_decimal(value: u128) -> (text: String)
    ensures
        text@ == spec_decimal(value as nat),
{
    let mut bytes: Vec<u8> = Vec::new();
    push_decimal(&mut bytes, value);
    assert(bytes@ =~= decimal_bytes(value as nat));
    proof {
        lemma_decimal_ascii(value as nat);
    }
    ascii_text(&bytes)
}

/// Collects the characters of a text.
pub fn text_chars(text: &str) -> (chars: Vec<char>)
    ensures
        chars@ == text@,
{
    let n = text.unicode_len();
    let mut chars: Vec<char> = Vec::new();
    let mut i: usize = 0;
    while i < n
        invariant
            n == text@.len(),
            i <= n,
            chars@ == text@.subrange(0, i as int),
        decreases n - i,
    {
        chars.push(text.get_char(i));
        i = i + 1;
        assert(chars@ =~= text@.subrange(0, i as int));
    }
    assert(chars@ =~= text@);
    chars
}

proof fn lemma_decimal_length(n: nat)
    ensures
        decimal_bytes(n).len() >= 1,
        n >= 10 ==> decimal_bytes(n).len() >= 2,
    decreases n,
{
    if n >= 10 {
        lemma_decimal_length(n / 10);
    }
}

/// Different numbers are written differently.
pub proof fn lemma_decimal_injective(n: nat, m: nat)
    ensures
        spec_decimal(n) == spec_decimal(m) ==> n == m,
    decreases n,
{
    if spec_decimal(n) == spec_decimal(m) {
        let a = decimal_bytes(n);
        let b = decimal_bytes(m);
        lemma_decimal_ascii(n);
        lemma_decimal_ascii(m);
        assert(a.len() == b.len()) by {
            assert(spec_decimal(n).len() == a.len());
        }
        assert forall|i: int| 0 <= i < a.len() implies a[i] == b[i] by {
            assert(spec_decimal(n)[i] == spec_decimal(m)[i]);
            assert((a[i] as char) == (b[i] as char));
            assert(a[i] as u32 == (a[i] as char) as u32);
            assert(b[i] as u32 == (b[i] as char) as u32);
        }
        assert(a =~= b);
        lemma_decimal_length(n);
        lemma_decimal_length(m);
        if n >= 10 && m >= 10 {
            assert(a.drop_last() =~= decimal_bytes(n / 10));
            assert(b.drop_last() =~= decimal_bytes(m / 10));
            assert(spec_decimal(n / 10) =~= spec_decimal(m / 10));
            lemma_decimal_injective(n / 10, m / 10);
            assert(a.last() == ((48 + n % 10) as u8));
            assert(b.last() == ((48 + m % 10) as u8));
            assert(n % 10 == m % 10);
            assert(n == 10 * (n / 10) + n % 10);
            assert(m == 10 * (m / 10) + m % 10);
        } else if n < 10 && m < 10 {
            assert(a[0] == ((48 + n) as u8));
            assert(b[0] == ((48 + m) as u8));
        } else if n < 10 {
            assert(a.len() == 1);
        } else {
            assert(b.len() == 1);
        }
    }
}

} // verus!
