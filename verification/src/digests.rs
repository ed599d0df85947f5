//! Digests used for signatures and file keys: SHA-256, MD5 and lowercase
//! hexadecimal rendering.
use vstd::prelude::*;
use sha2::Digest;
use crate::text::push_char;

verus! {

/// The lowercase hexadecimal digit for a nibble.
pub open spec fn hex_digit(n: u8) -> char {
    if n < 10 {
        (48 + n) as char
    } else {
        (87 + n) as char
    }
}

/// Lowercase hexadecimal of each byte in turn, high nibble first.
pub open spec fn hex_lower(data: Seq<u8>) -> Seq<char>
    decreases data.len(),
{
    if data.len() == 0 {
        Seq::empty()
    } else {
        let b = data.last();
        hex_lower(data.drop_last()) + seq![hex_digit(b / 16), hex_digit(b % 16)]
    }
}

fn hex_char(n: u8) -> (c: char)
    requires
        n < 16,
    ensures
        c == hex_digit(n),
{
    if n < 10 { (48 + n) as char } else { (87 + n) as char }
}

/// Renders each byte as two lowercase hexadecimal digits, high nibble
/// first, as `hex::encode` does.
pub fn hex_encode(data: &[u8]) -> (r: String)
    ensures
        r@ == hex_lower(data@),
{
    let mut out = String::new();
    let mut i: usize = 0;
    proof {
        assert(data@.take(0) =~= Seq::<u8>::empty());
    }
    while i < data.len()
        invariant
            i <= data@.len(),
            out@ == hex_lower(data@.take(i as int)),
        decreases data.len() - i,
    {
        let b = data[i];
        proof {
            assert(data@.take(i + 1).drop_last() =~= data@.take(i as int));
            assert(data@.take(i + 1).last() == b);
        }
        push_char(&mut out, hex_char(b / 16));
        push_char(&mut out, hex_char(b % 16));
        i = i + 1;
    }
    proof {
        assert(data@.take(i as int) =~= data@);
    }
    out
}

/// The SHA-256 digest of `data`.
pub uninterp spec fn sha256_digest(data: Seq<u8>) -> Seq<u8>;

/// Calls `sha2::Sha256::digest`; its 32 bytes are only known by the name
/// `sha256_digest`.
#[verifier::external_body]
pub fn sha256(data: &[u8]) -> (r: Vec<u8>)
    ensures
        r@ == sha256_digest(data@),
        r@.len() == 32,
{
    sha2::Sha256::digest(data).to_vec()
}

/// The MD5 digest of `data`.
pub uninterp spec fn md5_digest(data: Seq<u8>) -> Seq<u8>;

/// Calls `md5::compute` and renders the digest with `{:x}`, which writes
/// each of its 16 bytes as two lowercase hexadecimal digits; the digest is
/// only known by the name `md5_digest`.
#[verifier::external_body]
pub fn md5_hex(data: &[u8]) -> (r: String)
    ensures
        r@ == hex_lower(md5_digest(data@)),
        r@.len() == 32,
{
    format!("{:x}", md5::compute(data))
}

/// The character of the standard base64 alphabet for a six-bit value.
pub open spec fn b64_char(n: nat) -> char {
    if n < 26 {
        (65 + n) as char
    } else if n < 52 {
        (97 + (n - 26)) as char
    } else if n < 62 {
        (48 + (n - 52)) as char
    } else if n == 62 {
        '+'
    } else {
        '/'
    }
}

/// Standard base64 (RFC 4648 alphabet, `=` padding): each group of three
/// bytes becomes four characters; a final group of one or two bytes is
/// padded to four.
pub open spec fn base64_standard(d: Seq<u8>) -> Seq<char>
    decreases d.len(),
{
    if d.len() == 0 {
        Seq::empty()
    } else if d.len() == 1 {
        seq![b64_char(d[0] as nat / 4), b64_char((d[0] as nat % 4) * 16), '=', '=']
    } else if d.len() == 2 {
        seq![b64_char(d[0] as nat / 4), b64_char((d[0] as nat % 4) * 16 + d[1] as nat / 16),
            b64_char((d[1] as nat % 16) * 4), '=']
    } else {
        seq![b64_char(d[0] as nat / 4), b64_char((d[0] as nat % 4) * 16 + d[1] as nat / 16),
            b64_char((d[1] as nat % 16) * 4 + d[2] as nat / 64), b64_char(d[2] as nat % 64)]
            + base64_standard(d.skip(3))
    }
}

/// Calls `base64`'s `general_purpose::STANDARD.encode`, which writes the
/// standard base64 of the bytes with `=` padding.
#[verifier::external_body]
pub fn base64_encode(data: &[u8]) -> (r: String)
    ensures
        r@ == base64_standard(data@),
{
    base64::Engine::encode(&base64::engine::general_purpose::STANDARD, data)
}

} // verus!
