//! Numbers and bytes as text: hexadecimal, decimal and base64, as used in
//! identifiers and stored documents.

use vstd::prelude::*;
use vstd::string::*;
use vstd::utf8::*;

verus! {

/// The lower-case hexadecimal digit for a value below 16.
pub open spec fn hex_digit(n: int) -> char {
    if n == 0 {
        '0'
    } else if n == 1 {
        '1'
    } else if n == 2 {
        '2'
    } else if n == 3 {
        '3'
    } else if n == 4 {
        '4'
    } else if n == 5 {
        '5'
    } else if n == 6 {
        '6'
    } else if n == 7 {
        '7'
    } else if n == 8 {
        '8'
    } else if n == 9 {
        '9'
    } else if n == 10 {
        'a'
    } else if n == 11 {
        'b'
    } else if n == 12 {
        'c'
    } else if n == 13 {
        'd'
    } else if n == 14 {
        'e'
    } else {
        'f'
    }
}

/// Two lower-case hexadecimal digits per byte, high nibble first.
pub open spec fn hex_text(bytes: Seq<u8>) -> Seq<char> {
    Seq::new(
        2 * bytes.len(),
        |i: int|
            if i % 2 == 0 {
                hex_digit(bytes[i / 2] as int / 16)
            } else {
                hex_digit(bytes[i / 2] as int % 16)
            },
    )
}

/// The decimal numeral of `n`, without sign or leading zeros.
pub open spec fn decimal_text(n: nat) -> Seq<char>
    decreases n,
{
    if n < 10 {
        seq![hex_digit(n as int)]
    } else {
        decimal_text(n / 10).push(hex_digit((n % 10) as int))
    }
}

fn digit_str(n: u8) -> (s: &'static str)
    requires
        n < 16,
    ensures
        s@ == seq![hex_digit(n as int)],
{
    proof {
        reveal_strlit("0");
        reveal_strlit("1");
        reveal_strlit("2");
        reveal_strlit("3");
        reveal_strlit("4");
        reveal_strlit("5");
        reveal_strlit("6");
        reveal_strlit("7");
        reveal_strlit("8");
        reveal_strlit("9");
        reveal_strlit("a");
        reveal_strlit("b");
        reveal_strlit("c");
        reveal_strlit("d");
        reveal_strlit("e");
        reveal_strlit("f");
    }
    let s = match n {
        0 => "0",
        1 => "1",
        2 => "2",
        3 => "3",
        4 => "4",
        5 => "5",
        6 => "6",
        7 => "7",
        8 => "8",
        9 => "9",
        10 => "a",
        11 => "b",
        12 => "c",
        13 => "d",
        14 => "e",
        _ => "f",
    };
    assert(s@ =~= seq![hex_digit(n as int)]);
    s
}

/// Renders bytes as lower-case hexadecimal text.
pub fn to_hex(bytes: &[u8]) -> (out: String)
    ensures
        out@ == hex_text(bytes@),
{
    let mut out = String::new();
    let mut i: usize = 0;
    while i < bytes.len()
        invariant
            i <= bytes.len(),
            out@ == hex_text(bytes@.take(i as int)),
        decreases bytes.len() - i,
    {
        let b: u8 = bytes[i];
        out.append(digit_str(b / 16));
        out.append(digit_str(b % 16));
        i += 1;
        assert(out@ =~= hex_text(bytes@.take(i as int)));
    }
    assert(bytes@.take(i as int) =~= bytes@);
    out
}

/// Renders a number as decimal text.
pub fn to_decimal(n: usize) -> (out: String)
    ensures
        out@ == decimal_text(n as nat),
    decreases n,
{
    if n < 10 {
        digit_str(n as u8).to_owned()
    } else {
        let mut out = to_decimal(n / 10);
        out.append(digit_str((n % 10) as u8));
        out
    }
}

/// The value of a hexadecimal digit of either case; `None` for any other character.
pub open spec fn hex_value(c: char) -> Option<int> {
    let code = c as u32 as int;
    if 48 <= code <= 57 {
        Some(code - 48)
    } else if 97 <= code <= 102 {
        Some(code - 87)
    } else if 65 <= code <= 70 {
        Some(code - 55)
    } else {
        None
    }
}

/// Whether `text` is an even number of hexadecimal digits.
pub open spec fn is_hex_text(text: Seq<char>) -> bool {
    &&& text.len() % 2 == 0
    &&& forall|i: int| 0 <= i < text.len() ==> (#[trigger] hex_value(text[i])) is Some
}

/// The bytes that hexadecimal text spells, two digits per byte.
pub open spec fn hex_bytes(text: Seq<char>) -> Seq<u8> {
    Seq::new(
        text.len() / 2,
        |i: int| (16 * hex_value(text[2 * i])->0 + hex_value(text[2 * i + 1])->0) as u8,
    )
}

fn hex_digit_value(c: char) -> (value: Option<u8>)
    ensures
        value is Some == hex_value(c) is Some,
        value matches Some(v) ==> v == hex_value(c)->0 && v < 16,
{
    let code: u32 = c as u32;
    if 48 <= code && code <= 57 {
        Some((code - 48) as u8)
    } else if 97 <= code && code <= 102 {
        Some((code - 87) as u8)
    } else if 65 <= code && code <= 70 {
        Some((code - 55) as u8)
    } else {
        None
    }
}

/// Reads hexadecimal text of either case; `None` unless it is an even number
/// of hexadecimal digits.
pub fn from_hex(s: &str) -> (bytes: Option<Vec<u8>>)
    ensures
        bytes is Some == is_hex_text(s@),
        bytes matches Some(b) ==> b@ == hex_bytes(s@),
{
    let n = s.unicode_len();
    if n % 2 != 0 {
        return None;
    }
    let mut out: Vec<u8> = Vec::new();
    let mut i: usize = 0;
    while i < n
        invariant
            n == s@.len(),
            n % 2 == 0,
            i % 2 == 0,
            i <= n,
            out@.len() == i / 2,
            forall|j: int| 0 <= j < i ==> (#[trigger] hex_value(s@[j])) is Some,
            forall|k: int|
                0 <= k < out@.len() ==> out@[k] == (16 * hex_value(s@[2 * k])->0 + hex_value(
                    s@[2 * k + 1],
                )->0) as u8,
        decreases n - i,
    {
        let high = hex_digit_value(s.get_char(i));
        let low = hex_digit_value(s.get_char(i + 1));
        match (high, low) {
            (Some(h), Some(l)) => {
                out.push(16 * h + l);
            },
            _ => {
                return None;
            },
        }
        i += 2;
    }
    assert(out@ =~= hex_bytes(s@));
    Some(out)
}

/// Hexadecimal text spells the bytes it was rendered from.
pub proof fn lemma_hex_round_trip(bytes: Seq<u8>)
    ensures
        is_hex_text(hex_text(bytes)),
        hex_bytes(hex_text(bytes)) == bytes,
{
    let text = hex_text(bytes);
    assert forall|n: int| 0 <= n < 16 implies hex_value(hex_digit(n)) == Some(n) by {}
    assert forall|i: int| 0 <= i < text.len() implies (#[trigger] hex_value(text[i])) is Some by {
        let b = bytes[i / 2] as int;
        assert(0 <= b / 16 < 16 && 0 <= b % 16 < 16);
    }
    assert forall|k: int| 0 <= k < bytes.len() implies hex_bytes(text)[k] == bytes[k] by {
        let b = bytes[k] as int;
        assert(0 <= b / 16 < 16 && 0 <= b % 16 < 16);
        assert((2 * k) / 2 == k && (2 * k + 1) / 2 == k);
        assert((2 * k) % 2 == 0 && (2 * k + 1) % 2 == 1);
        assert(text[2 * k] == hex_digit(b / 16));
        assert(text[2 * k + 1] == hex_digit(b % 16));
        assert(16 * (b / 16) + b % 16 == b);
    }
    assert(hex_bytes(text) =~= bytes);
}

/// The 64 digits of standard base64, in the order of their values.
pub open spec fn base64_alphabet() -> Seq<char> {
    "ABCDEFGHIJKLMNOPQRSTUVWXYZabcdefghijklmnopqrstuvwxyz0123456789+/"@
}

/// The base64 digit for a value below 64.
pub open spec fn base64_digit(v: int) -> char {
    base64_alphabet()[v]
}

/// Standard base64 with padding: four digits for every three bytes, and `=`
/// in place of the digits that a short last group leaves empty.
pub open spec fn base64_text(data: Seq<u8>) -> Seq<char>
    decreases data.len(),
{
    if data.len() == 0 {
        Seq::empty()
    } else if data.len() == 1 {
        let a = data[0] as int;
        seq![base64_digit(a / 4), base64_digit(a % 4 * 16), '=', '=']
    } else if data.len() == 2 {
        let a = data[0] as int;
        let b = data[1] as int;
        seq![base64_digit(a / 4), base64_digit(a % 4 * 16 + b / 16), base64_digit(b % 16 * 4), '=']
    } else {
        let a = data[0] as int;
        let b = data[1] as int;
        let c = data[2] as int;
        seq![
            base64_digit(a / 4),
            base64_digit(a % 4 * 16 + b / 16),
            base64_digit(b % 16 * 4 + c / 64),
            base64_digit(c % 64),
        ] + base64_text(data.skip(3))
    }
}

/// The value of a base64 digit; -1 for any other character.
pub open spec fn base64_value(c: char) -> int {
    let code = c as u32 as int;
    if 65 <= code <= 90 {
        code - 65
    } else if 97 <= code <= 122 {
        code - 71
    } else if 48 <= code <= 57 {
        code + 4
    } else if code == 43 {
        62
    } else if code == 47 {
        63
    } else {
        -1
    }
}

/// Every base64 digit has the value that it is the digit for.
pub proof fn lemma_base64_digit_value(v: int)
    requires
        0 <= v < 64,
    ensures
        base64_value(base64_digit(v)) == v,
{
    reveal_strlit("ABCDEFGHIJKLMNOPQRSTUVWXYZabcdefghijklmnopqrstuvwxyz0123456789+/");
    if v == 0 {
    } else if v == 1 {
    } else if v == 2 {
    } else if v == 3 {
    } else if v == 4 {
    } else if v == 5 {
    } else if v == 6 {
    } else if v == 7 {
    } else if v == 8 {
    } else if v == 9 {
    } else if v == 10 {
    } else if v == 11 {
    } else if v == 12 {
    } else if v == 13 {
    } else if v == 14 {
    } else if v == 15 {
    } else if v == 16 {
    } else if v == 17 {
    } else if v == 18 {
    } else if v == 19 {
    } else if v == 20 {
    } else if v == 21 {
    } else if v == 22 {
    } else if v == 23 {
    } else if v == 24 {
    } else if v == 25 {
    } else if v == 26 {
    } else if v == 27 {
    } else if v == 28 {
    } else if v == 29 {
    } else if v == 30 {
    } else if v == 31 {
    } else if v == 32 {
    } else if v == 33 {
    } else if v == 34 {
    } else if v == 35 {
    } else if v == 36 {
    } else if v == 37 {
    } else if v == 38 {
    } else if v == 39 {
    } else if v == 40 {
    } else if v == 41 {
    } else if v == 42 {
    } else if v == 43 {
    } else if v == 44 {
    } else if v == 45 {
    } else if v == 46 {
    } else if v == 47 {
    } else if v == 48 {
    } else if v == 49 {
    } else if v == 50 {
    } else if v == 51 {
    } else if v == 52 {
    } else if v == 53 {
    } else if v == 54 {
    } else if v == 55 {
    } else if v == 56 {
    } else if v == 57 {
    } else if v == 58 {
    } else if v == 59 {
    } else if v == 60 {
    } else if v == 61 {
    } else if v == 62 {
    } else if v == 63 {
    }
}

/// The length of base64 text: four characters for every three bytes begun.
pub proof fn lemma_base64_len(data: Seq<u8>)
    ensures
        base64_text(data).len() == 4 * ((data.len() + 2) / 3),
    decreases data.len(),
{
    if data.len() >= 3 {
        lemma_base64_len(data.skip(3));
    }
}

/// Whether a character occurs in base64 text: a digit, or the padding.
pub open spec fn is_base64_char(c: char) -> bool {
    base64_value(c) >= 0 || c == '='
}

/// Base64 text is made of base64 digits and padding.
pub proof fn lemma_base64_chars(data: Seq<u8>)
    ensures
        forall|i: int|
            0 <= i < base64_text(data).len() ==> is_base64_char(#[trigger] base64_text(data)[i]),
    decreases data.len(),
{
    let text = base64_text(data);
    assert forall|i: int| 0 <= i < text.len() implies is_base64_char(#[trigger] text[i]) by {
        if data.len() == 0 {
        } else {
            let a = data[0] as int;
            lemma_base64_digit_value(a / 4);
            if data.len() == 1 {
                lemma_base64_digit_value(a % 4 * 16);
            } else {
                let b = data[1] as int;
                lemma_base64_digit_value(a % 4 * 16 + b / 16);
                if data.len() == 2 {
                    lemma_base64_digit_value(b % 16 * 4);
                } else {
                    let c = data[2] as int;
                    lemma_base64_digit_value(b % 16 * 4 + c / 64);
                    lemma_base64_digit_value(c % 64);
                    lemma_base64_chars(data.skip(3));
                    if i >= 4 {
                        assert(text[i] == base64_text(data.skip(3))[i - 4]);
                    }
                }
            }
        }
    }
}

/// Different bytes have different base64 text.
pub proof fn lemma_base64_injective(a: Seq<u8>, b: Seq<u8>)
    requires
        base64_text(a) == base64_text(b),
    ensures
        a == b,
    decreases a.len(),
{
    let ta = base64_text(a);
    let tb = base64_text(b);
    lemma_base64_len(a);
    lemma_base64_len(b);
    if a.len() == 0 || b.len() == 0 {
        assert(a =~= b);
    } else {
        let a0 = a[0] as int;
        let b0 = b[0] as int;
        lemma_base64_digit_value(a0 / 4);
        lemma_base64_digit_value(b0 / 4);
        assert(ta[0] == tb[0]);
        assert(ta[1] == tb[1]);
        assert(ta[2] == tb[2]);
        assert(ta[3] == tb[3]);
        if a.len() == 1 {
            lemma_base64_digit_value(a0 % 4 * 16);
            if b.len() == 1 {
                lemma_base64_digit_value(b0 % 4 * 16);
            } else {
                let b1 = b[1] as int;
                if b.len() == 2 {
                    lemma_base64_digit_value(b1 % 16 * 4);
                } else {
                    lemma_base64_digit_value(b[2] as int % 64);
                }
            }
            assert(a =~= b);
        } else if a.len() == 2 {
            let a1 = a[1] as int;
            lemma_base64_digit_value(a0 % 4 * 16 + a1 / 16);
            lemma_base64_digit_value(a1 % 16 * 4);
            if b.len() == 1 {
            } else {
                let b1 = b[1] as int;
                lemma_base64_digit_value(b0 % 4 * 16 + b1 / 16);
                if b.len() == 2 {
                    lemma_base64_digit_value(b1 % 16 * 4);
                } else {
                    lemma_base64_digit_value(b[2] as int % 64);
                }
            }
            assert(a =~= b);
        } else if b.len() < 3 {
            lemma_base64_digit_value(a[2] as int % 64);
        } else {
            let a1 = a[1] as int;
            let a2 = a[2] as int;
            let b1 = b[1] as int;
            let b2 = b[2] as int;
            lemma_base64_digit_value(a0 % 4 * 16 + a1 / 16);
            lemma_base64_digit_value(a1 % 16 * 4 + a2 / 64);
            lemma_base64_digit_value(a2 % 64);
            lemma_base64_digit_value(b0 % 4 * 16 + b1 / 16);
            lemma_base64_digit_value(b1 % 16 * 4 + b2 / 64);
            lemma_base64_digit_value(b2 % 64);
            assert(a0 == b0 && a1 == b1 && a2 == b2);
            assert(ta.skip(4) =~= base64_text(a.skip(3)));
            assert(tb.skip(4) =~= base64_text(b.skip(3)));
            lemma_base64_injective(a.skip(3), b.skip(3));
            assert(a =~= seq![a[0], a[1], a[2]] + a.skip(3));
            assert(b =~= seq![b[0], b[1], b[2]] + b.skip(3));
        }
    }
}

fn base64_digit_str(v: u8) -> (s: &'static str)
    requires
        v < 64,
    ensures
        s@ == seq![base64_digit(v as int)],
{
    let alphabet = "ABCDEFGHIJKLMNOPQRSTUVWXYZabcdefghijklmnopqrstuvwxyz0123456789+/";
    proof {
        reveal_strlit("ABCDEFGHIJKLMNOPQRSTUVWXYZabcdefghijklmnopqrstuvwxyz0123456789+/");
    }
    let s = alphabet.substring_char(v as usize, v as usize + 1);
    assert(s@ =~= seq![base64_digit(v as int)]);
    s
}

/// Encodes bytes as standard base64 with padding.
pub fn base64_encode(data: &[u8]) -> (out: String)
    ensures
        out@ == base64_text(data@),
{
    let mut out = String::new();
    let n = data.len();
    let mut i: usize = 0;
    proof {
        reveal_strlit("=");
        reveal_strlit("==");
        assert(data@.skip(0) =~= data@);
    }
    while n - i >= 3
        invariant
            i <= n,
            n == data@.len(),
            base64_text(data@) == out@ + base64_text(data@.skip(i as int)),
        decreases n - i,
    {
        let a: u8 = data[i];
        let b: u8 = data[i + 1];
        let c: u8 = data[i + 2];
        let ghost before = out@;
        let ghost rest = data@.skip(i as int);
        out.append(base64_digit_str(a / 4));
        out.append(base64_digit_str(a % 4 * 16 + b / 16));
        out.append(base64_digit_str(b % 16 * 4 + c / 64));
        out.append(base64_digit_str(c % 64));
        proof {
            assert(rest.skip(3) =~= data@.skip(i + 3));
            assert(out@ + base64_text(rest.skip(3)) =~= before + base64_text(rest));
        }
        i += 3;
    }
    let ghost before = out@;
    let ghost rest = data@.skip(i as int);
    if n - i == 1 {
        let a: u8 = data[i];
        out.append(base64_digit_str(a / 4));
        out.append(base64_digit_str(a % 4 * 16));
        out.append("==");
        assert(out@ =~= before + base64_text(rest));
    } else if n - i == 2 {
        let a: u8 = data[i];
        let b: u8 = data[i + 1];
        out.append(base64_digit_str(a / 4));
        out.append(base64_digit_str(a % 4 * 16 + b / 16));
        out.append(base64_digit_str(b % 16 * 4));
        out.append("=");
        assert(out@ =~= before + base64_text(rest));
    } else {
        assert(out@ =~= before + base64_text(rest));
    }
    out
}

/// A copy of the bytes from `start` up to `end`.
pub fn copy_range(bytes: &[u8], start: usize, end: usize) -> (out: Vec<u8>)
    requires
        start <= end <= bytes@.len(),
    ensures
        out@ == bytes@.subrange(start as int, end as int),
{
    let mut out: Vec<u8> = Vec::new();
    let mut i: usize = start;
    while i < end
        invariant
            start <= i <= end,
            end <= bytes@.len(),
            out@ == bytes@.subrange(start as int, i as int),
        decreases end - i,
    {
        out.push(bytes[i]);
        i += 1;
        assert(bytes@.subrange(start as int, i as int) =~= bytes@.subrange(start as int, i - 1).push(
            bytes@[i - 1],
        ));
    }
    out
}

/// Whether two byte strings hold the same bytes.
pub fn bytes_equal(a: &[u8], b: &[u8]) -> (same: bool)
    ensures
        same == (a@ == b@),
{
    if a.len() != b.len() {
        return false;
    }
    let mut i: usize = 0;
    while i < a.len()
        invariant
            i <= a.len(),
            a.len() == b.len(),
            a@.take(i as int) == b@.take(i as int),
        decreases a.len() - i,
    {
        if a[i] != b[i] {
            return false;
        }
        i += 1;
        assert(a@.take(i as int) =~= a@.take(i - 1).push(a@[i - 1]));
        assert(b@.take(i as int) =~= b@.take(i - 1).push(b@[i - 1]));
    }
    assert(a@ =~= a@.take(i as int));
    assert(b@ =~= b@.take(i as int));
    true
}

/// Whether two strings hold the same characters.
pub fn str_equal(a: &str, b: &str) -> (same: bool)
    ensures
        same == (a@ == b@),
{
    let same = bytes_equal(a.as_bytes(), b.as_bytes());
    proof {
        encode_utf8_decode_utf8(a@);
        encode_utf8_decode_utf8(b@);
    }
    same
}

} // verus!
