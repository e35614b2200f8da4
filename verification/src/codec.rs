//! Bytes stored as text: hexadecimal and base64.

use vstd::prelude::*;

verus! {

/// The content of an optional list of bytes.
pub open spec fn opt_bytes_view(bytes: Option<Vec<u8>>) -> Option<Seq<u8>> {
    match bytes {
        Some(bytes) => Some(bytes@),
        None => None,
    }
}

/// The value of a hexadecimal digit, of either case.
pub open spec fn hex_digit(symbol: u8) -> Option<int> {
    if 48 <= symbol <= 57 {
        Some(symbol - 48)
    } else if 65 <= symbol <= 70 {
        Some(symbol - 55)
    } else if 97 <= symbol <= 102 {
        Some(symbol - 87)
    } else {
        None
    }
}

/// `text` is made of whole pairs of hexadecimal digits.
pub open spec fn is_hex(text: Seq<u8>) -> bool {
    text.len() % 2 == 0 && forall|i: int| 0 <= i < text.len() ==> hex_digit(#[trigger] text[i]) is Some
}

/// The bytes that `text` writes in hexadecimal, none where it writes none.
pub open spec fn hex_decoded(text: Seq<u8>) -> Option<Seq<u8>> {
    if is_hex(text) {
        Some(
            Seq::new(
                text.len() / 2,
                |i: int| (16 * hex_digit(text[2 * i])->0 + hex_digit(text[2 * i + 1])->0) as u8,
            ),
        )
    } else {
        None
    }
}

/// The lower-case hexadecimal digit for a value under sixteen.
pub open spec fn hex_symbol(value: int) -> u8 {
    if value < 10 {
        (value + 48) as u8
    } else {
        (value + 87) as u8
    }
}

/// `bytes` in lower-case hexadecimal.
pub open spec fn hex_text(bytes: Seq<u8>) -> Seq<u8> {
    Seq::new(
        bytes.len() * 2,
        |i: int|
            if i % 2 == 0 {
                hex_symbol(bytes[i / 2] as int / 16)
            } else {
                hex_symbol(bytes[i / 2] as int % 16)
            },
    )
}

/// What was written in hexadecimal is read back.
pub proof fn hex_round_trip(bytes: Seq<u8>)
    ensures
        hex_decoded(hex_text(bytes)) == Some(bytes),
{
    let text = hex_text(bytes);
    assert forall|i: int| 0 <= i < text.len() implies hex_digit(#[trigger] text[i]) is Some by {
        let b = bytes[i / 2] as int;
        assert(0 <= b / 16 < 16 && 0 <= b % 16 < 16);
    }
    let back = hex_decoded(text)->0;
    assert forall|i: int| 0 <= i < bytes.len() implies #[trigger] back[i] == bytes[i] by {
        let b = bytes[i] as int;
        assert((2 * i) / 2 == i && (2 * i + 1) / 2 == i);
        assert(hex_digit(text[2 * i]) == Some(b / 16));
        assert(hex_digit(text[2 * i + 1]) == Some(b % 16));
    }
    assert(back =~= bytes);
}

/// The symbol of the standard base64 alphabet for a value under sixty-four.
pub open spec fn base64_symbol(value: int) -> u8 {
    if value < 26 {
        (value + 65) as u8
    } else if value < 52 {
        (value + 71) as u8
    } else if value < 62 {
        (value - 4) as u8
    } else if value == 62 {
        43
    } else {
        47
    }
}

/// The four symbols for three bytes.
pub open spec fn base64_group(a: u8, b: u8, c: u8) -> Seq<u8> {
    let n = a * 65536 + b * 256 + c;
    seq![
        base64_symbol(n / 262144),
        base64_symbol(n / 4096 % 64),
        base64_symbol(n / 64 % 64),
        base64_symbol(n % 64),
    ]
}

/// `bytes` in standard base64, padded with `=` to whole groups of four.
pub open spec fn base64_text(bytes: Seq<u8>) -> Seq<u8>
    decreases bytes.len(),
{
    if bytes.len() == 0 {
        Seq::empty()
    } else if bytes.len() == 1 {
        base64_group(bytes[0], 0, 0).take(2) + seq![61u8, 61u8]
    } else if bytes.len() == 2 {
        base64_group(bytes[0], bytes[1], 0).take(3) + seq![61u8]
    } else {
        base64_group(bytes[0], bytes[1], bytes[2]) + base64_text(bytes.skip(3))
    }
}

/// The bytes whose standard base64 form is `text`, none where there are none.
pub open spec fn base64_decoded(text: Seq<u8>) -> Option<Seq<u8>> {
    if exists|bytes: Seq<u8>| base64_text(bytes) == text {
        Some(choose|bytes: Seq<u8>| base64_text(bytes) == text)
    } else {
        None
    }
}

proof fn base64_symbol_is_injective(a: int, b: int)
    requires
        0 <= a < 64,
        0 <= b < 64,
        base64_symbol(a) == base64_symbol(b),
    ensures
        a == b,
{
}

/// A number is known by its quotient and its remainder.
proof fn same_number(n: int, m: int, d: int)
    requires
        d > 0,
        n / d == m / d,
        n % d == m % d,
    ensures
        n == m,
{
    vstd::arithmetic::div_mod::lemma_fundamental_div_mod(n, d);
    vstd::arithmetic::div_mod::lemma_fundamental_div_mod(m, d);
}

proof fn base64_group_is_injective(a: u8, b: u8, c: u8, x: u8, y: u8, z: u8)
    requires
        base64_group(a, b, c)[0] == base64_group(x, y, z)[0],
        base64_group(a, b, c)[1] == base64_group(x, y, z)[1],
    ensures
        a == x,
        base64_group(a, b, c)[2] == base64_group(x, y, z)[2] ==> b == y,
        base64_group(a, b, c) == base64_group(x, y, z) ==> c == z,
{
    let n = a * 65536 + b * 256 + c;
    let m = x * 65536 + y * 256 + z;
    base64_symbol_is_injective(n / 262144, m / 262144);
    base64_symbol_is_injective(n / 4096 % 64, m / 4096 % 64);
    assert(n / 4096 / 64 == n / 262144 && m / 4096 / 64 == m / 262144);
    same_number(n / 4096, m / 4096, 64);
    assert(n / 4096 / 16 == a && m / 4096 / 16 == x);
    if base64_group(a, b, c)[2] == base64_group(x, y, z)[2] {
        base64_symbol_is_injective(n / 64 % 64, m / 64 % 64);
        assert(n / 64 / 64 == n / 4096 && m / 64 / 64 == m / 4096);
        same_number(n / 64, m / 64, 64);
        assert(n / 64 / 4 == a * 256 + b && m / 64 / 4 == x * 256 + y);
    }
    if base64_group(a, b, c) == base64_group(x, y, z) {
        assert(base64_group(a, b, c)[3] == base64_group(x, y, z)[3]);
        base64_symbol_is_injective(n % 64, m % 64);
        same_number(n, m, 64);
    }
}

proof fn base64_text_is_injective(a: Seq<u8>, b: Seq<u8>)
    requires
        base64_text(a) == base64_text(b),
    ensures
        a == b,
    decreases a.len(),
{
    let s = base64_text(a);
    assert forall|v: int| 0 <= v < 64 implies #[trigger] base64_symbol(v) != 61 by {}
    if a.len() > 0 && b.len() > 0 {
        let a1 = if a.len() > 1 { a[1] } else { 0u8 };
        let a2 = if a.len() > 2 { a[2] } else { 0u8 };
        let b1 = if b.len() > 1 { b[1] } else { 0u8 };
        let b2 = if b.len() > 2 { b[2] } else { 0u8 };
        let g = base64_group(a[0], a1, a2);
        let h = base64_group(b[0], b1, b2);
        assert(s[0] == g[0] && s[0] == h[0]);
        assert(s[1] == g[1] && s[1] == h[1]);
        assert(s[2] == (if a.len() > 1 { g[2] } else { 61 }));
        assert(s[2] == (if b.len() > 1 { h[2] } else { 61 }));
        assert(s[3] == (if a.len() > 2 { g[3] } else { 61 }));
        assert(s[3] == (if b.len() > 2 { h[3] } else { 61 }));
        base64_group_is_injective(a[0], a1, a2, b[0], b1, b2);
        if a.len() > 2 {
            assert(g =~= h);
            assert(base64_text(a.skip(3)) =~= s.skip(4));
            assert(base64_text(b.skip(3)) =~= s.skip(4));
            base64_text_is_injective(a.skip(3), b.skip(3));
            assert(a =~= a.take(3) + a.skip(3));
            assert(b =~= b.take(3) + b.skip(3));
            assert(a.take(3) =~= b.take(3));
        } else {
            assert(a =~= b);
        }
    } else {
        assert(a =~= b);
    }
}

/// What was written in base64 is read back.
pub proof fn base64_round_trip(bytes: Seq<u8>)
    ensures
        base64_decoded(base64_text(bytes)) == Some(bytes),
{
    let back = choose|b: Seq<u8>| base64_text(b) == base64_text(bytes);
    base64_text_is_injective(back, bytes);
}

/// Calls `hex::decode`. Trusted: it succeeds on whole pairs of hexadecimal
/// digits of either case and on nothing else, and gives the bytes they write.
#[verifier::external_body]
pub(crate) fn hex_decode(text: &[u8]) -> (bytes: Option<Vec<u8>>)
    ensures
        opt_bytes_view(bytes) == hex_decoded(text@),
{
    hex::decode(text).ok()
}

/// Calls `decode` of `base64::engine::general_purpose::STANDARD`. Trusted: it
/// succeeds on the padded standard form of some bytes and on nothing else, and
/// gives those bytes.
#[verifier::external_body]
pub(crate) fn base64_decode(text: &[u8]) -> (bytes: Option<Vec<u8>>)
    ensures
        opt_bytes_view(bytes) == base64_decoded(text@),
{
    base64::Engine::decode(&base64::engine::general_purpose::STANDARD, text).ok()
}

} // verus!
