//! Digests, random tokens and the clock.

use vstd::prelude::*;
use vstd::utf8::encode_utf8;

verus! {

// ---------------------------------------------------------------------------
// Hexadecimal
// ---------------------------------------------------------------------------

/// The small hexadecimal digit of `n`.
pub open spec fn hex_digit(n: int) -> char {
    if n < 10 {
        (n + 48) as char
    } else {
        (n + 87) as char
    }
}

/// Two small hexadecimal digits for each byte, the high half first.
pub open spec fn hex_text(bytes: Seq<u8>) -> Seq<char> {
    Seq::new(
        bytes.len() * 2,
        |i: int|
            if i % 2 == 0 {
                hex_digit(bytes[i / 2] as int / 16)
            } else {
                hex_digit(bytes[i / 2] as int % 16)
            },
    )
}

/// `c` is one of `0` to `9` and `a` to `f`.
pub open spec fn is_hex_digit(c: char) -> bool {
    '0' <= c <= '9' || 'a' <= c <= 'f'
}

fn digit(n: u8) -> (r: char)
    requires
        n < 16,
    ensures
        r == hex_digit(n as int),
{
    if n < 10 {
        (n + 48) as char
    } else {
        (n + 87) as char
    }
}

/// Writes bytes in small hexadecimal digits.
pub fn to_hex(bytes: &[u8]) -> (r: String)
    ensures
        r@ == hex_text(bytes@),
        r@.len() == 2 * bytes@.len(),
        forall|i: int| 0 <= i < r@.len() ==> is_hex_digit(#[trigger] r@[i]),
{
    let mut r = String::new();
    let mut i: usize = 0;
    while i < bytes.len()
        invariant
            i <= bytes@.len(),
            r@ == hex_text(bytes@).take(2 * i),
        decreases bytes@.len() - i,
    {
        let b: u8 = bytes[i];
        r.push(digit(b / 16));
        r.push(digit(b % 16));
        i += 1;
        assert(r@ == hex_text(bytes@).take(2 * i));
    }
    assert(hex_text(bytes@).take(2 * i) == hex_text(bytes@));
    r
}

// ---------------------------------------------------------------------------
// SHA-256
// ---------------------------------------------------------------------------

/// The SHA-256 digest of `data`, as `sha2::Sha256` computes it.
pub uninterp spec fn sha256_digest(data: Seq<u8>) -> Seq<u8>;

/// `sha2::Sha256::digest` is a function of the bytes it is given and returns
/// thirty-two bytes. Which bytes is left to the name `sha256_digest`.
#[verifier::external_body]
fn digest(data: &[u8]) -> (r: Vec<u8>)
    ensures
        r@ == sha256_digest(data@),
        r@.len() == 32,
{
    <sha2::Sha256 as sha2::Digest>::digest(data).to_vec()
}

/// The SHA-256 digest of the UTF-8 bytes of `text`, in hexadecimal.
pub open spec fn sha256_text(text: Seq<char>) -> Seq<char> {
    hex_text(sha256_digest(encode_utf8(text)))
}

/// The SHA-256 digest of `text` in sixty-four hexadecimal digits.
pub fn sha256(text: &str) -> (r: String)
    ensures
        r@ == sha256_text(text@),
        r@.len() == 64,
{
    let bytes = digest(text.as_bytes());
    to_hex(bytes.as_slice())
}

// ---------------------------------------------------------------------------
// Chance and time
// ---------------------------------------------------------------------------

/// `rand::random` draws thirty-two random bytes. Nothing is claimed of them.
#[verifier::external_body]
fn random_bytes() -> (r: [u8; 32]) {
    rand::random::<[u8; 32]>()
}

/// The text is that of thirty-two bytes that `random_bytes` may draw. Only a
/// call of it shows this, and no two calls need draw the same.
pub closed spec fn drawn(token: Seq<char>) -> bool {
    exists|bytes: [u8; 32]| #![trigger call_ensures(random_bytes, (), bytes)]
        call_ensures(random_bytes, (), bytes) && token == hex_text(bytes@)
}

/// A fresh random token: sixty-four hexadecimal digits for the bytes that were
/// drawn.
pub fn random_token() -> (r: String)
    ensures
        drawn(r@),
        r@.len() == 64,
        forall|i: int| 0 <= i < r@.len() ==> is_hex_digit(#[trigger] r@[i]),
{
    let bytes = random_bytes();
    assert(call_ensures(random_bytes, (), bytes));
    to_hex(bytes.as_slice())
}

/// `chrono::Utc::now` reads the clock and `timestamp` gives the seconds since
/// 1970. The clock counts from there, and the years that `chrono` can hold end
/// long before the seconds reach the end of `i64`; nothing else is claimed.
#[verifier::external_body]
fn now() -> (r: i64)
    ensures
        0 <= r < i64::MAX,
{
    chrono::Utc::now().timestamp()
}

/// The clock may show this time. Only a reading of it shows this, and another
/// reading may differ.
pub closed spec fn clock_shows(time: i64) -> bool {
    call_ensures(now, (), time)
}

/// The time that the clock shows, in seconds since 1970.
pub(crate) fn read_clock() -> (r: i64)
    ensures
        clock_shows(r),
        0 <= r < i64::MAX,
{
    let time: i64 = now();
    assert(call_ensures(now, (), time));
    time
}

// ---------------------------------------------------------------------------
// Laws of tokens
// ---------------------------------------------------------------------------

/// The value of a small hexadecimal digit.
pub open spec fn digit_value(c: char) -> int {
    if '0' <= c <= '9' {
        c as int - '0' as int
    } else {
        c as int - 'a' as int + 10
    }
}

/// The text spells the bytes: two small hexadecimal digits for each, in order.
pub open spec fn spells(text: Seq<char>, bytes: Seq<u8>) -> bool {
    &&& text.len() == 2 * bytes.len()
    &&& forall|i: int| 0 <= i < text.len() ==> is_hex_digit(#[trigger] text[i])
    &&& forall|i: int| #![trigger bytes[i]]
        0 <= i < bytes.len() ==> 16 * digit_value(text[2 * i]) + digit_value(text[2 * i + 1])
            == bytes[i]
}

/// The digits of bytes spell them.
pub proof fn hex_text_spells(bytes: Seq<u8>)
    ensures
        spells(hex_text(bytes), bytes),
{
    let text = hex_text(bytes);
    assert forall|i: int| #![trigger bytes[i]] 0 <= i < bytes.len() implies 16 * digit_value(
        text[2 * i],
    ) + digit_value(text[2 * i + 1]) == bytes[i] by {
        assert((2 * i) % 2 == 0 && (2 * i) / 2 == i);
        assert((2 * i + 1) % 2 == 1 && (2 * i + 1) / 2 == i);
    }
}

/// What `to_hex` writes spells the bytes.
pub proof fn to_hex_spells(bytes: &[u8], r: String)
    requires
        call_ensures(to_hex, (bytes,), r),
    ensures
        spells(r@, bytes@),
{
    hex_text_spells(bytes@);
}

/// The digest of a text spells the SHA-256 digest of its UTF-8 bytes, all of
/// it, and of nothing else.
pub proof fn sha256_spells_the_digest(text: &str, r: String)
    requires
        call_ensures(sha256, (text,), r),
    ensures
        spells(r@, sha256_digest(encode_utf8(text@))),
        r@.len() == 64,
        r@ == sha256_text(text@),
{
    hex_text_spells(sha256_digest(encode_utf8(text@)));
}

/// These are thirty-two bytes that chance may give.
pub closed spec fn by_chance(bytes: Seq<u8>) -> bool {
    exists|drawn: [u8; 32]| #![trigger call_ensures(random_bytes, (), drawn)]
        call_ensures(random_bytes, (), drawn) && bytes == drawn@
}

/// A token that was drawn spells thirty-two bytes that chance gave.
pub proof fn drawn_spells_chance(token: Seq<char>)
    requires
        drawn(token),
    ensures
        exists|bytes: Seq<u8>| #[trigger]
            by_chance(bytes) && bytes.len() == 32 && spells(token, bytes),
{
    let bytes = choose|bytes: [u8; 32]| #![trigger call_ensures(random_bytes, (), bytes)]
        call_ensures(random_bytes, (), bytes) && token == hex_text(bytes@);
    hex_text_spells(bytes@);
    assert(by_chance(bytes@));
}

/// A random token spells thirty-two bytes that were drawn, each of them.
pub proof fn random_token_spells_chance(r: String)
    requires
        call_ensures(random_token, (), r),
    ensures
        exists|bytes: Seq<u8>| #[trigger]
            by_chance(bytes) && bytes.len() == 32 && spells(r@, bytes),
{
    drawn_spells_chance(r@);
}

/// The time that is read is the time that the clock gave, not one near it.
proof fn clock_is_read_as_it_is(r: i64)
    requires
        call_ensures(read_clock, (), r),
    ensures
        call_ensures(now, (), r),
        clock_shows(r),
{
}

} // verus!
