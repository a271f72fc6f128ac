use vstd::prelude::*;

use crate::crypto::{hmac_sha256, hmac_sha256_tag};
use crate::text::{all_ascii, ascii_chars, string_from_ascii};

verus! {

/// Side of a CLOB order.
#[derive(Debug, Clone, Copy, PartialEq, Eq, Structural)]
pub enum OrderSide {
    Buy,
    Sell,
}

/// The side as the CLOB API spells it.
pub fn side_label(side: OrderSide) -> (label: &'static str)
    ensures
        side == OrderSide::Buy ==> label@ == "BUY"@,
        side == OrderSide::Sell ==> label@ == "SELL"@,
{
    match side {
        OrderSide::Buy => "BUY",
        OrderSide::Sell => "SELL",
    }
}

/// Answer of the CLOB API to an order placement.
#[derive(Debug, Clone)]
pub struct OrderResponse {
    pub order_id: String,
    pub status: String,
}

/// A market is traded when it is active and not closed.
pub fn market_is_open(active: bool, closed: bool) -> (b: bool)
    ensures
        b == (active && !closed),
{
    active && !closed
}

/// How the client treats the HTTP status of a CLOB answer.
#[derive(Debug, Clone, Copy, PartialEq, Eq, Structural)]
pub enum ResponseStatus {
    /// 2xx: the body is the answer.
    Success,
    /// 429: the client is rate limited.
    RateLimited,
    /// Any other status: the request was rejected.
    Rejected,
}

/// Classifies an HTTP status code: 429 is rate limiting, 200..=299 is
/// success, anything else is a rejection.
pub fn classify_status(code: u16) -> (s: ResponseStatus)
    ensures
        code == 429 ==> s == ResponseStatus::RateLimited,
        code != 429 && 200 <= code <= 299 ==> s == ResponseStatus::Success,
        code != 429 && !(200 <= code <= 299) ==> s == ResponseStatus::Rejected,
{
    if code == 429 {
        ResponseStatus::RateLimited
    } else if 200 <= code && code <= 299 {
        ResponseStatus::Success
    } else {
        ResponseStatus::Rejected
    }
}

/// The ASCII code of the base64 digit for the six-bit value `v`, in the
/// standard alphabet `A-Z a-z 0-9 + /`.
pub open spec fn base64_digit(v: u32) -> u8 {
    if v < 26 {
        (65 + v) as u8
    } else if v < 52 {
        (97 + (v - 26)) as u8
    } else if v < 62 {
        (48 + (v - 52)) as u8
    } else if v == 62 {
        43
    } else {
        47
    }
}

/// The ASCII code of the padding character `=`.
pub open spec fn pad() -> u8 {
    61
}

/// The 24-bit group of three bytes.
pub open spec fn group(b0: u8, b1: u8, b2: u8) -> u32 {
    ((b0 as u32) << 16u32) | ((b1 as u32) << 8u32) | (b2 as u32)
}

/// Four output characters for one chunk of `len` (1 to 3) bytes; missing
/// bytes count as zero and missing characters are padding.
pub open spec fn chunk_digits(b0: u8, b1: u8, b2: u8, len: nat) -> Seq<u8> {
    let t = group(b0, b1, b2);
    seq![
        base64_digit((t >> 18u32) & 0x3f),
        base64_digit((t >> 12u32) & 0x3f),
        if len > 1 { base64_digit((t >> 6u32) & 0x3f) } else { pad() },
        if len > 2 { base64_digit(t & 0x3f) } else { pad() },
    ]
}

/// Byte `i` of `data`, or zero past its end.
pub open spec fn byte_or_zero(data: Seq<u8>, i: int) -> u8 {
    if i < data.len() {
        data[i]
    } else {
        0
    }
}

/// Base64 digits of the first `k` three-byte chunks of `data` (the last
/// chunk may be short).
pub open spec fn base64_chunks(data: Seq<u8>, k: nat) -> Seq<u8>
    decreases k,
{
    if k == 0 {
        seq![]
    } else {
        let s = 3 * (k - 1);
        let rest = data.len() - s;
        base64_chunks(data, (k - 1) as nat) + chunk_digits(
            byte_or_zero(data, s),
            byte_or_zero(data, s + 1),
            byte_or_zero(data, s + 2),
            if rest > 3 { 3 } else { rest as nat },
        )
    }
}

/// Number of chunks of `n` bytes: `ceil(n / 3)`.
pub open spec fn chunk_count(n: nat) -> nat {
    (n + 2) / 3
}

/// Standard base64 with padding, as ASCII codes.
pub open spec fn base64_bytes(data: Seq<u8>) -> Seq<u8> {
    base64_chunks(data, chunk_count(data.len()))
}

proof fn lemma_base64_chunks(data: Seq<u8>, k: nat)
    ensures
        base64_chunks(data, k).len() == 4 * k,
        all_ascii(base64_chunks(data, k)),
    decreases k,
{
    if k > 0 {
        lemma_base64_chunks(data, (k - 1) as nat);
    }
}

fn base64_digit_code(v: u32) -> (c: u8)
    requires
        v < 64,
    ensures
        c == base64_digit(v),
{
    if v < 26 {
        65 + v as u8
    } else if v < 52 {
        97 + (v - 26) as u8
    } else if v < 62 {
        48 + (v - 52) as u8
    } else if v == 62 {
        43
    } else {
        47
    }
}

/// The base64 alphabet is `A`..`Z`, `a`..`z`, `0`..`9`, `+`, `/` in that
/// order: each of the three runs starts at its first letter or digit and
/// goes on one character per value, and no two values share a character.
pub proof fn law_base64_alphabet()
    ensures
        base64_digit(0) as char == 'A',
        base64_digit(26) as char == 'a',
        base64_digit(52) as char == '0',
        base64_digit(62) as char == '+',
        base64_digit(63) as char == '/',
        forall|v: u32|
            #![trigger base64_digit(v)]
            (v + 1 < 26 || (26 <= v && v + 1 < 52) || (52 <= v && v + 1 < 62)) ==> base64_digit(
                (v + 1) as u32,
            ) == base64_digit(v) + 1,
        forall|v: u32, w: u32|
            v < 64 && w < 64 && v != w ==> #[trigger] base64_digit(v) != #[trigger] base64_digit(w),
{
}

/// One byte `b` is written as the digits of its top six bits and of its low
/// two bits followed by four zero bits, then two `=`.
pub proof fn law_base64_one_byte(b: u8)
    ensures
        base64_bytes(seq![b]) == seq![base64_digit((b / 4) as u32), base64_digit(((b % 4) * 16) as u32), pad(), pad()],
{
    let data = seq![b];
    assert(chunk_count(1) == 1);
    assert(byte_or_zero(data, 0) == b);
    assert(byte_or_zero(data, 1) == 0);
    assert(byte_or_zero(data, 2) == 0);
    let t = group(b, 0, 0);
    assert(((t >> 18u32) & 0x3f) == (b / 4) as u32 && ((t >> 12u32) & 0x3f) == ((b % 4) * 16) as u32)
        by (bit_vector)
        requires
            t == ((b as u32) << 16u32) | ((0u8 as u32) << 8u32) | (0u8 as u32),
    ;
    assert(base64_chunks(data, 0) =~= Seq::<u8>::empty());
    assert(base64_bytes(data) == base64_chunks(data, 0) + chunk_digits(b, 0, 0, 1));
    assert(base64_bytes(data) =~= seq![base64_digit((b / 4) as u32), base64_digit(((b % 4) * 16) as u32), pad(), pad()]);
}

/// Three bytes are written as four digits, each of six consecutive bits of
/// the 24 bits `b0 b1 b2`, most significant first, with no padding.
pub proof fn law_base64_three_bytes(b0: u8, b1: u8, b2: u8)
    ensures
        base64_bytes(seq![b0, b1, b2]) == seq![
            base64_digit((b0 / 4) as u32),
            base64_digit(((b0 % 4) * 16 + b1 / 16) as u32),
            base64_digit(((b1 % 16) * 4 + b2 / 64) as u32),
            base64_digit((b2 % 64) as u32),
        ],
{
    let data = seq![b0, b1, b2];
    assert(chunk_count(3) == 1);
    assert(byte_or_zero(data, 0) == b0);
    assert(byte_or_zero(data, 1) == b1);
    assert(byte_or_zero(data, 2) == b2);
    let t = group(b0, b1, b2);
    assert(((t >> 18u32) & 0x3f) == (b0 / 4) as u32 && ((t >> 12u32) & 0x3f) == ((b0 % 4) * 16 + b1
        / 16) as u32 && ((t >> 6u32) & 0x3f) == ((b1 % 16) * 4 + b2 / 64) as u32 && (t & 0x3f) == (b2
        % 64) as u32) by (bit_vector)
        requires
            t == ((b0 as u32) << 16u32) | ((b1 as u32) << 8u32) | (b2 as u32),
    ;
    assert(base64_chunks(data, 0) =~= Seq::<u8>::empty());
    assert(base64_bytes(data) == base64_chunks(data, 0) + chunk_digits(b0, b1, b2, 3));
    assert(base64_bytes(data) =~= seq![
        base64_digit((b0 / 4) as u32),
        base64_digit(((b0 % 4) * 16 + b1 / 16) as u32),
        base64_digit(((b1 % 16) * 4 + b2 / 64) as u32),
        base64_digit((b2 % 64) as u32),
    ]);
}

/// Two bytes are written as three digits of their 16 bits followed by two
/// zero bits, then one `=`.
pub proof fn law_base64_two_bytes(b0: u8, b1: u8)
    ensures
        base64_bytes(seq![b0, b1]) == seq![
            base64_digit((b0 / 4) as u32),
            base64_digit(((b0 % 4) * 16 + b1 / 16) as u32),
            base64_digit(((b1 % 16) * 4) as u32),
            pad(),
        ],
{
    let data = seq![b0, b1];
    assert(chunk_count(2) == 1);
    assert(byte_or_zero(data, 0) == b0);
    assert(byte_or_zero(data, 1) == b1);
    assert(byte_or_zero(data, 2) == 0);
    let t = group(b0, b1, 0);
    assert(((t >> 18u32) & 0x3f) == (b0 / 4) as u32 && ((t >> 12u32) & 0x3f) == ((b0 % 4) * 16 + b1
        / 16) as u32 && ((t >> 6u32) & 0x3f) == ((b1 % 16) * 4) as u32) by (bit_vector)
        requires
            t == ((b0 as u32) << 16u32) | ((b1 as u32) << 8u32) | (0u8 as u32),
    ;
    assert(base64_chunks(data, 0) =~= Seq::<u8>::empty());
    assert(base64_bytes(data) == base64_chunks(data, 0) + chunk_digits(b0, b1, 0, 2));
    assert(base64_bytes(data) =~= seq![
        base64_digit((b0 / 4) as u32),
        base64_digit(((b0 % 4) * 16 + b1 / 16) as u32),
        base64_digit(((b1 % 16) * 4) as u32),
        pad(),
    ]);
}

proof fn lemma_chunks_prefix(a: Seq<u8>, b: Seq<u8>, k: nat)
    requires
        3 * k <= a.len(),
    ensures
        base64_chunks(a + b, k) == base64_chunks(a, k),
    decreases k,
{
    if k > 0 {
        lemma_chunks_prefix(a, b, (k - 1) as nat);
        let s = 3 * (k - 1);
        assert(byte_or_zero(a + b, s) == byte_or_zero(a, s));
        assert(byte_or_zero(a + b, s + 1) == byte_or_zero(a, s + 1));
        assert(byte_or_zero(a + b, s + 2) == byte_or_zero(a, s + 2));
    }
}

proof fn lemma_chunks_suffix(a: Seq<u8>, b: Seq<u8>, j: nat)
    requires
        a.len() % 3 == 0,
    ensures
        base64_chunks(a + b, a.len() / 3 + j) == base64_chunks(a, a.len() / 3) + base64_chunks(b, j),
    decreases j,
{
    let na: nat = a.len() / 3;
    if j == 0 {
        lemma_chunks_prefix(a, b, na);
        assert(base64_chunks(a, na) + base64_chunks(b, 0) =~= base64_chunks(a, na));
    } else {
        lemma_chunks_suffix(a, b, (j - 1) as nat);
        let s = 3 * (na + j - 1);
        let t = 3 * (j - 1);
        assert(s == a.len() + t);
        assert(byte_or_zero(a + b, s) == byte_or_zero(b, t));
        assert(byte_or_zero(a + b, s + 1) == byte_or_zero(b, t + 1));
        assert(byte_or_zero(a + b, s + 2) == byte_or_zero(b, t + 2));
        assert((a + b).len() - s == b.len() - t);
        assert(base64_chunks(a + b, na + j) =~= base64_chunks(a, na) + base64_chunks(b, j));
    }
}

/// Whole groups of three bytes are encoded on their own: the text of `a`
/// followed by `b`, where `a` is a whole number of groups, is the text of
/// `a` followed by the text of `b`.
pub proof fn law_base64_concat(a: Seq<u8>, b: Seq<u8>)
    requires
        a.len() % 3 == 0,
    ensures
        base64_bytes(a + b) == base64_bytes(a) + base64_bytes(b),
{
    lemma_chunks_suffix(a, b, chunk_count(b.len()));
    assert(chunk_count((a + b).len()) == a.len() / 3 + chunk_count(b.len()));
    assert(chunk_count(a.len()) == a.len() / 3);
}

/// Standard base64 text of `data`, with `=` padding.
pub fn base64_encode(data: &[u8]) -> (s: String)
    ensures
        s@ == ascii_chars(base64_bytes(data@)),
        s@.len() == 4 * chunk_count(data@.len()),
{
    let mut out: Vec<u8> = Vec::new();
    let n = data.len();
    let mut start: usize = 0;
    let ghost mut k: nat = 0;
    while start < n
        invariant
            n == data@.len(),
            start <= n,
            start < n ==> start == 3 * k,
            start < n ==> k < chunk_count(n as nat),
            start == n ==> k == chunk_count(n as nat),
            out@ == base64_chunks(data@, k),
        decreases n - start,
    {
        let len: usize = if n - start > 3 {
            3
        } else {
            n - start
        };
        let b0 = data[start] as u32;
        let b1: u32 = if len > 1 {
            data[start + 1] as u32
        } else {
            0
        };
        let b2: u32 = if len > 2 {
            data[start + 2] as u32
        } else {
            0
        };
        let triple: u32 = (b0 << 16u32) | (b1 << 8u32) | b2;
        let d0 = (triple >> 18u32) & 0x3f;
        let d1 = (triple >> 12u32) & 0x3f;
        let d2 = (triple >> 6u32) & 0x3f;
        let d3 = triple & 0x3f;
        assert(d0 < 64 && d1 < 64 && d2 < 64 && d3 < 64) by (bit_vector)
            requires
                d0 == (triple >> 18u32) & 0x3f,
                d1 == (triple >> 12u32) & 0x3f,
                d2 == (triple >> 6u32) & 0x3f,
                d3 == triple & 0x3f,
        ;
        out.push(base64_digit_code(d0));
        out.push(base64_digit_code(d1));
        if len > 1 {
            out.push(base64_digit_code(d2));
        } else {
            out.push(61);
        }
        if len > 2 {
            out.push(base64_digit_code(d3));
        } else {
            out.push(61);
        }
        proof {
            let s: int = 3 * k as int;
            assert(b0 == byte_or_zero(data@, s) as u32);
            assert(b1 == byte_or_zero(data@, s + 1) as u32);
            assert(b2 == byte_or_zero(data@, s + 2) as u32);
            assert(triple == group(
                byte_or_zero(data@, s),
                byte_or_zero(data@, s + 1),
                byte_or_zero(data@, s + 2),
            ));
            k = k + 1;
            assert(out@ =~= base64_chunks(data@, k));
        }
        start = start + len;
    }
    proof {
        lemma_base64_chunks(data@, k);
    }
    string_from_ascii(out)
}

/// The signature of a CLOB request made at `timestamp`: base64 of the
/// HMAC-SHA256 of the timestamp followed by `GET/order`, under the API
/// secret.
pub open spec fn clob_signature_text(api_secret: Seq<char>, timestamp: Seq<char>) -> Seq<char> {
    ascii_chars(
        base64_bytes(
            hmac_sha256_tag(
                vstd::utf8::encode_utf8(api_secret),
                vstd::utf8::encode_utf8(timestamp + "GET/order"@),
            ),
        ),
    )
}

/// Signs a CLOB request made at `timestamp`.
pub fn clob_signature(api_secret: &str, timestamp: &str) -> (sig: String)
    ensures
        sig@ == clob_signature_text(api_secret@, timestamp@),
{
    let mut msg = String::from_str(timestamp);
    msg.append("GET/order");
    let tag = hmac_sha256(api_secret.as_bytes(), msg.as_str().as_bytes());
    base64_encode(tag.as_slice())
}

/// The authentication headers of a CLOB request made at `timestamp`:
/// address, signature, timestamp and passphrase, in that order.
pub fn auth_headers(
    api_key: &String,
    api_secret: &String,
    passphrase: &String,
    timestamp: &String,
) -> (h: Vec<(&'static str, String)>)
    ensures
        h@.len() == 4,
        h@[0].0@ == "POLY_ADDRESS"@ && h@[0].1@ == api_key@,
        h@[1].0@ == "POLY_SIGNATURE"@ && h@[1].1@ == clob_signature_text(api_secret@, timestamp@),
        h@[2].0@ == "POLY_TIMESTAMP"@ && h@[2].1@ == timestamp@,
        h@[3].0@ == "POLY_PASSPHRASE"@ && h@[3].1@ == passphrase@,
{
    let sig = clob_signature(api_secret.as_str(), timestamp.as_str());
    let mut h: Vec<(&'static str, String)> = Vec::new();
    h.push(("POLY_ADDRESS", api_key.clone()));
    h.push(("POLY_SIGNATURE", sig));
    h.push(("POLY_TIMESTAMP", timestamp.clone()));
    h.push(("POLY_PASSPHRASE", passphrase.clone()));
    h
}

} // verus!
