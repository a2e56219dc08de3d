//! The token alphabet: URL-safe base64 without padding, over UTF-8 text.
use base64::engine::general_purpose::URL_SAFE_NO_PAD;
use base64::Engine;
use vstd::prelude::*;
use vstd::utf8::*;

verus! {

/// The digit for a six-bit value: `A`-`Z`, `a`-`z`, `0`-`9`, `-`, `_`.
pub open spec fn b64_digit(v: int) -> char {
    if v < 26 {
        ((65 + v) as u32) as char
    } else if v < 52 {
        ((97 + v - 26) as u32) as char
    } else if v < 62 {
        ((48 + v - 52) as u32) as char
    } else if v == 62 {
        '-'
    } else {
        '_'
    }
}

/// The URL-safe base64 text of some bytes, without padding: each group of
/// three bytes gives four digits, and a last group of one or two bytes gives
/// two or three.
pub open spec fn b64_text(b: Seq<u8>) -> Seq<char>
    decreases b.len(),
{
    if b.len() == 0 {
        seq![]
    } else if b.len() == 1 {
        seq![b64_digit((b[0] >> 2u8) as int), b64_digit(((b[0] & 3u8) << 4u8) as int)]
    } else if b.len() == 2 {
        seq![
            b64_digit((b[0] >> 2u8) as int),
            b64_digit((((b[0] & 3u8) << 4u8) | (b[1] >> 4u8)) as int),
            b64_digit(((b[1] & 15u8) << 2u8) as int),
        ]
    } else {
        seq![
            b64_digit((b[0] >> 2u8) as int),
            b64_digit((((b[0] & 3u8) << 4u8) | (b[1] >> 4u8)) as int),
            b64_digit((((b[1] & 15u8) << 2u8) | (b[2] >> 6u8)) as int),
            b64_digit((b[2] & 63u8) as int),
        ] + b64_text(b.skip(3))
    }
}

/// The length of the unpadded base64 text of `n` bytes.
pub open spec fn b64_len(n: nat) -> nat {
    (4 * n + 2) / 3
}

/// Relies on base64's `URL_SAFE_NO_PAD` engine, `Engine::encode`: URL-safe
/// alphabet, no padding.
#[verifier::external_body]
pub(crate) fn b64_encode(bytes: &[u8]) -> (r: String)
    ensures
        r@ == b64_text(bytes@),
{
    URL_SAFE_NO_PAD.encode(bytes)
}

/// Relies on base64's `URL_SAFE_NO_PAD` engine, `Engine::decode`: it takes
/// exactly the texts that its encoder writes (no padding, no stray trailing
/// bits) and gives back bytes that encode to the text.
#[verifier::external_body]
pub(crate) fn b64_decode(text: &str) -> (r: Option<Vec<u8>>)
    ensures
        r is Some <==> exists|b: Seq<u8>| b64_text(b) == text@,
        r matches Some(v) ==> b64_text(v@) == text@,
{
    URL_SAFE_NO_PAD.decode(text).ok()
}

/// Relies on `String::from_utf8`: it takes exactly the valid UTF-8 byte
/// sequences, and decodes them.
#[verifier::external_body]
pub(crate) fn utf8_decode(bytes: Vec<u8>) -> (r: Option<String>)
    ensures
        r is Some <==> valid_utf8(bytes@),
        r matches Some(s) ==> s@ == decode_utf8(bytes@),
{
    String::from_utf8(bytes).ok()
}

/// Four digits for every three bytes, and two or three for a last partial group.
pub proof fn lemma_b64_len(b: Seq<u8>)
    ensures
        b64_text(b).len() == b64_len(b.len()),
    decreases b.len(),
{
    if b.len() >= 3 {
        lemma_b64_len(b.skip(3));
    }
}

proof fn lemma_digit_injective(v: int, w: int)
    requires
        0 <= v < 64,
        0 <= w < 64,
        b64_digit(v) == b64_digit(w),
    ensures
        v == w,
{
    assert(b64_digit(v) as int == b64_digit(w) as int);
}

proof fn lemma_b64_len_injective(n: nat, m: nat)
    requires
        b64_len(n) == b64_len(m),
    ensures
        n == m,
{
    if n < m {
        assert((4 * n + 2) / 3 < (4 * m + 2) / 3) by (nonlinear_arith)
            requires
                n < m,
        ;
    } else if m < n {
        assert((4 * m + 2) / 3 < (4 * n + 2) / 3) by (nonlinear_arith)
            requires
                m < n,
        ;
    }
}

/// Different bytes never share a token: the encoding can be read back.
pub proof fn lemma_b64_injective(a: Seq<u8>, b: Seq<u8>)
    requires
        b64_text(a) == b64_text(b),
    ensures
        a == b,
    decreases a.len(),
{
    lemma_b64_len(a);
    lemma_b64_len(b);
    lemma_b64_len_injective(a.len(), b.len());
    let ta = b64_text(a);
    let tb = b64_text(b);
    if a.len() == 0 {
        assert(a =~= b);
    } else {
        let (a0, b0) = (a[0], b[0]);
        let (x0, y0) = (a0 >> 2u8, b0 >> 2u8);
        assert(ta[0] == tb[0]);
        assert(x0 < 64 && y0 < 64) by (bit_vector)
            requires
                x0 == a0 >> 2u8,
                y0 == b0 >> 2u8,
        ;
        lemma_digit_injective(x0 as int, y0 as int);
        assert(ta[1] == tb[1]);
        if a.len() == 1 {
            let (x1, y1) = ((a0 & 3u8) << 4u8, (b0 & 3u8) << 4u8);
            assert(x1 < 64 && y1 < 64) by (bit_vector)
                requires
                    x1 == (a0 & 3u8) << 4u8,
                    y1 == (b0 & 3u8) << 4u8,
            ;
            lemma_digit_injective(x1 as int, y1 as int);
            assert(a0 == b0) by (bit_vector)
                requires
                    a0 >> 2u8 == b0 >> 2u8,
                    (a0 & 3u8) << 4u8 == (b0 & 3u8) << 4u8,
            ;
            assert(a =~= b);
        } else {
            let (a1, b1) = (a[1], b[1]);
            let (x1, y1) = (((a0 & 3u8) << 4u8) | (a1 >> 4u8), ((b0 & 3u8) << 4u8) | (b1 >> 4u8));
            assert(x1 < 64 && y1 < 64) by (bit_vector)
                requires
                    x1 == ((a0 & 3u8) << 4u8) | (a1 >> 4u8),
                    y1 == ((b0 & 3u8) << 4u8) | (b1 >> 4u8),
            ;
            lemma_digit_injective(x1 as int, y1 as int);
            assert(ta[2] == tb[2]);
            if a.len() == 2 {
                let (x2, y2) = ((a1 & 15u8) << 2u8, (b1 & 15u8) << 2u8);
                assert(x2 < 64 && y2 < 64) by (bit_vector)
                    requires
                        x2 == (a1 & 15u8) << 2u8,
                        y2 == (b1 & 15u8) << 2u8,
                ;
                lemma_digit_injective(x2 as int, y2 as int);
                assert(a0 == b0 && a1 == b1) by (bit_vector)
                    requires
                        a0 >> 2u8 == b0 >> 2u8,
                        ((a0 & 3u8) << 4u8) | (a1 >> 4u8) == ((b0 & 3u8) << 4u8) | (b1 >> 4u8),
                        (a1 & 15u8) << 2u8 == (b1 & 15u8) << 2u8,
                ;
                assert(a =~= b);
            } else {
                let (a2, b2) = (a[2], b[2]);
                let (x2, y2) = (((a1 & 15u8) << 2u8) | (a2 >> 6u8), ((b1 & 15u8) << 2u8) | (b2
                    >> 6u8));
                assert(x2 < 64 && y2 < 64) by (bit_vector)
                    requires
                        x2 == ((a1 & 15u8) << 2u8) | (a2 >> 6u8),
                        y2 == ((b1 & 15u8) << 2u8) | (b2 >> 6u8),
                ;
                lemma_digit_injective(x2 as int, y2 as int);
                assert(ta[3] == tb[3]);
                let (x3, y3) = (a2 & 63u8, b2 & 63u8);
                assert(x3 < 64 && y3 < 64) by (bit_vector)
                    requires
                        x3 == a2 & 63u8,
                        y3 == b2 & 63u8,
                ;
                lemma_digit_injective(x3 as int, y3 as int);
                assert(a0 == b0 && a1 == b1 && a2 == b2) by (bit_vector)
                    requires
                        a0 >> 2u8 == b0 >> 2u8,
                        ((a0 & 3u8) << 4u8) | (a1 >> 4u8) == ((b0 & 3u8) << 4u8) | (b1 >> 4u8),
                        ((a1 & 15u8) << 2u8) | (a2 >> 6u8) == ((b1 & 15u8) << 2u8) | (b2 >> 6u8),
                        a2 & 63u8 == b2 & 63u8,
                ;
                assert(ta.skip(4) =~= b64_text(a.skip(3)));
                assert(tb.skip(4) =~= b64_text(b.skip(3)));
                lemma_b64_injective(a.skip(3), b.skip(3));
                assert(a =~= seq![a0, a1, a2] + a.skip(3));
                assert(b =~= seq![b0, b1, b2] + b.skip(3));
            }
        }
    }
}

} // verus!
