//! Text building: digits, decimal and hexadecimal numbers, concatenation.

use vstd::prelude::*;
use vstd::utf8;

verus! {

/// The character of one hexadecimal digit, letters in lower case.
pub open spec fn hex_digit(d: int) -> char {
    if d == 0 {
        '0'
    } else if d == 1 {
        '1'
    } else if d == 2 {
        '2'
    } else if d == 3 {
        '3'
    } else if d == 4 {
        '4'
    } else if d == 5 {
        '5'
    } else if d == 6 {
        '6'
    } else if d == 7 {
        '7'
    } else if d == 8 {
        '8'
    } else if d == 9 {
        '9'
    } else if d == 10 {
        'a'
    } else if d == 11 {
        'b'
    } else if d == 12 {
        'c'
    } else if d == 13 {
        'd'
    } else if d == 14 {
        'e'
    } else {
        'f'
    }
}

/// Two hexadecimal digits for each byte, high digit first.
pub open spec fn hex(bytes: Seq<u8>) -> Seq<char> {
    Seq::new(
        2 * bytes.len(),
        |i: int|
            if i % 2 == 0 {
                hex_digit(bytes[i / 2] as int / 16)
            } else {
                hex_digit(bytes[i / 2] as int % 16)
            },
    )
}

/// The decimal numeral of `n`, without leading zeros.
pub open spec fn decimal(n: nat) -> Seq<char>
    decreases n,
{
    if n < 10 {
        seq![hex_digit(n as int)]
    } else {
        decimal(n / 10).push(hex_digit(n as int % 10))
    }
}

/// The two-digit decimal numeral of `n`, for `n` below 100.
pub open spec fn two_digits(n: nat) -> Seq<char> {
    seq![hex_digit(n as int / 10), hex_digit(n as int % 10)]
}

/// The four-digit hexadecimal numeral of `n`.
pub open spec fn four_hex_digits(n: u16) -> Seq<char> {
    seq![
        hex_digit(n as int / 4096),
        hex_digit(n as int / 256 % 16),
        hex_digit(n as int / 16 % 16),
        hex_digit(n as int % 16),
    ]
}

/// The digits are the characters from `0` to `9` and then those from `a` to `f`, in
/// the order of their codes.
pub proof fn law_hex_digit(d: int)
    ensures
        0 <= d < 10 ==> hex_digit(d) as u32 == 0x30 + d,
        10 <= d < 16 ==> hex_digit(d) as u32 == 0x61 + (d - 10),
{
}

/// The numeral of a number is that of its tenth with one more digit, and a single
/// digit stands for itself.
pub proof fn law_decimal(n: nat, digit: nat)
    requires
        digit < 10,
    ensures
        decimal(digit) == seq![hex_digit(digit as int)],
        n > 0 ==> decimal(10 * n + digit) == decimal(n).push(hex_digit(digit as int)),
{
}

/// Numerals of a fixed width hold the digits from the most significant on.
pub proof fn law_fixed_digits(a: int, b: int, c: int, d: int)
    requires
        0 <= a < 16,
        0 <= b < 16,
        0 <= c < 16,
        0 <= d < 16,
    ensures
        a < 10 && b < 10 ==> two_digits((10 * a + b) as nat) == seq![hex_digit(a), hex_digit(b)],
        four_hex_digits((4096 * a + 256 * b + 16 * c + d) as u16) == seq![
            hex_digit(a),
            hex_digit(b),
            hex_digit(c),
            hex_digit(d),
        ],
        hex(seq![(16 * a + b) as u8]) == seq![hex_digit(a), hex_digit(b)],
{
    let n = 4096 * a + 256 * b + 16 * c + d;
    lemma_four_digits(a, b, c, d);
    assert((n as u16) as int == n);
    let byte = (16 * a + b) as u8;
    assert(byte as int / 16 == a && byte as int % 16 == b);
    assert(hex(seq![byte]).len() == 2);
    assert(hex(seq![byte])[0] == hex_digit(byte as int / 16));
    assert(hex(seq![byte])[1] == hex_digit(byte as int % 16));
    assert(hex(seq![byte]) =~= seq![hex_digit(a), hex_digit(b)]);
}

proof fn lemma_four_digits(a: int, b: int, c: int, d: int)
    requires
        0 <= a < 16,
        0 <= b < 16,
        0 <= c < 16,
        0 <= d < 16,
    ensures
        ({
            let n = 4096 * a + 256 * b + 16 * c + d;
            &&& 0 <= n < 65536
            &&& n / 4096 == a
            &&& n / 256 % 16 == b
            &&& n / 16 % 16 == c
            &&& n % 16 == d
        }),
{
    let n = 4096 * a + 256 * b + 16 * c + d;
    assert(n / 16 == 256 * a + 16 * b + c);
    assert(n / 256 == 16 * a + b);
}

/// The hexadecimal digits of bytes are those of each byte, one after the other.
pub proof fn law_hex_concat(a: Seq<u8>, b: Seq<u8>)
    ensures
        hex(a + b) == hex(a) + hex(b),
        hex(a).len() == 2 * a.len(),
{
    assert(hex(a + b) =~= hex(a) + hex(b));
}

/// Text takes at most four bytes for each character.
pub proof fn lemma_utf8_len(s: Seq<char>)
    ensures
        s.len() <= utf8::encode_utf8(s).len() <= 4 * s.len(),
    decreases s.len(),
{
    if s.len() > 0 {
        lemma_utf8_len(s.drop_first());
    }
}

/// One digit as text.
fn digit_str(d: u8) -> (s: &'static str)
    requires
        d < 16,
    ensures
        s@ == seq![hex_digit(d as int)],
{
    proof {
        reveal_strlit("0");
        reveal_strlit("1");
        reveal_strlit("2");
        reveal_strlit("3");
        reveal_strlit("4");
        reveal_strlit("5");
        reveal_strlit("6");
        reveal_strlit("7");
        reveal_strlit("8");
        reveal_strlit("9");
        reveal_strlit("a");
        reveal_strlit("b");
        reveal_strlit("c");
        reveal_strlit("d");
        reveal_strlit("e");
        reveal_strlit("f");
    }
    match d {
        0 => "0",
        1 => "1",
        2 => "2",
        3 => "3",
        4 => "4",
        5 => "5",
        6 => "6",
        7 => "7",
        8 => "8",
        9 => "9",
        10 => "a",
        11 => "b",
        12 => "c",
        13 => "d",
        14 => "e",
        _ => "f",
    }
}

/// Append the decimal numeral of `n`.
pub fn push_decimal(out: &mut String, n: u64)
    ensures
        final(out)@ == old(out)@ + decimal(n as nat),
    decreases n,
{
    if n >= 10 {
        push_decimal(out, n / 10);
    }
    out.append(digit_str((n % 10) as u8));
    assert(out@ =~= old(out)@ + decimal(n as nat));
}

/// Append the two hexadecimal digits of `b`.
pub fn push_hex_byte(out: &mut String, b: u8)
    ensures
        final(out)@ == old(out)@ + hex(seq![b]),
{
    out.append(digit_str(b / 16));
    out.append(digit_str(b % 16));
    assert(out@ =~= old(out)@ + hex(seq![b]));
}

/// Append `n` as four hexadecimal digits.
pub fn push_four_hex_digits(out: &mut String, n: u16)
    ensures
        final(out)@ == old(out)@ + four_hex_digits(n),
{
    out.append(digit_str((n / 4096) as u8));
    out.append(digit_str((n / 256 % 16) as u8));
    out.append(digit_str((n / 16 % 16) as u8));
    out.append(digit_str((n % 16) as u8));
    assert(out@ =~= old(out)@ + four_hex_digits(n));
}

/// Append `n` as two decimal digits.
pub fn push_two_digits(out: &mut String, n: u64)
    requires
        n < 100,
    ensures
        final(out)@ == old(out)@ + two_digits(n as nat),
{
    out.append(digit_str((n / 10) as u8));
    out.append(digit_str((n % 10) as u8));
    assert(out@ =~= old(out)@ + two_digits(n as nat));
}

/// Join two pieces of text.
pub fn concat2(a: &str, b: &str) -> (s: String)
    ensures
        s@ == a@ + b@,
{
    let mut s = a.to_owned();
    s.append(b);
    s
}

/// Join three pieces of text.
pub fn concat3(a: &str, b: &str, c: &str) -> (s: String)
    ensures
        s@ == a@ + b@ + c@,
{
    let mut s = concat2(a, b);
    s.append(c);
    s
}

/// `String::from_utf8`: bytes that are valid UTF-8 become the text they encode,
/// and others are rejected.
#[verifier::external_body]
pub(crate) fn string_from_utf8(bytes: Vec<u8>) -> (r: Option<String>)
    ensures
        match r {
            Some(s) => utf8::valid_utf8(bytes@) && s@ == utf8::decode_utf8(bytes@),
            None => !utf8::valid_utf8(bytes@),
        },
{
    String::from_utf8(bytes).ok()
}

} // verus!
