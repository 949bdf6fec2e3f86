//! Digests and their text form.

use base64::Engine;
use sha2::Digest;
use vstd::prelude::*;
use vstd::string::*;

use crate::text;

verus! {

/// The SHA-256 digest of a message.
pub uninterp spec fn sha256_of(message: Seq<u8>) -> Seq<u8>;

/// `sha2::Sha256::digest` hashes a message in one call. The contract names the
/// digest and says that it has thirty-two bytes.
#[verifier::external_body]
pub(crate) fn sha256(message: &[u8]) -> (r: Vec<u8>)
    ensures
        r@ == sha256_of(message@),
        r@.len() == 32,
{
    sha2::Sha256::digest(message).to_vec()
}

/// The URL-safe Base64 alphabet.
pub open spec fn base64_char(n: int) -> char {
    if n < 26 {
        (n as u8 + 65u8) as char
    } else if n < 52 {
        (n as u8 + 71u8) as char
    } else if n < 62 {
        (n as u8 - 4u8) as char
    } else if n == 62 {
        '-'
    } else {
        '_'
    }
}

/// The `i`-th group of six bits, the last one filled up with zeros.
pub open spec fn sextet(bytes: Seq<u8>, i: int) -> int {
    let k = 6 * i / 8;
    let pair = bytes[k] * 256 + if k + 1 < bytes.len() {
        bytes[k + 1] as int
    } else {
        0
    };
    let shift = 6 * i % 8;
    (if shift == 0 {
        pair / 1024
    } else if shift == 2 {
        pair / 256
    } else if shift == 4 {
        pair / 64
    } else {
        pair / 16
    }) % 64
}

/// URL-safe Base64 without padding: one character for each six bits.
pub open spec fn base64_of(bytes: Seq<u8>) -> Seq<char> {
    Seq::new(((4 * bytes.len() + 2) / 3) as nat, |i: int| base64_char(sextet(bytes, i)))
}

/// Only characters of that alphabet.
pub open spec fn is_url_safe(s: Seq<char>) -> bool {
    forall|i: int|
        0 <= i < s.len() ==> text::is_upper(#[trigger] s[i]) || text::is_lower(s[i])
            || text::is_digit(s[i]) || s[i] == '-' || s[i] == '_'
}

/// The encoding keeps to its alphabet, whatever is encoded.
pub proof fn lemma_base64_is_url_safe(bytes: Seq<u8>)
    ensures
        is_url_safe(base64_of(bytes)),
{
    let s = base64_of(bytes);
    assert forall|i: int| 0 <= i < s.len() implies text::is_upper(#[trigger] s[i])
        || text::is_lower(s[i]) || text::is_digit(s[i]) || s[i] == '-' || s[i] == '_' by {
        let n = sextet(bytes, i);
        assert(0 <= n < 64);
        assert(s[i] == base64_char(n));
    }
}

/// `base64`'s `URL_SAFE_NO_PAD` engine encodes bytes as RFC 4648 has it: the
/// contract states the text in full.
#[verifier::external_body]
pub(crate) fn base64_url(bytes: &[u8]) -> (r: String)
    ensures
        r@ == base64_of(bytes@),
{
    base64::engine::general_purpose::URL_SAFE_NO_PAD.encode(bytes)
}

/// `n` as eight bytes, the least significant first.
pub open spec fn le64(n: u64) -> Seq<u8> {
    seq![
        (n % 256) as u8,
        (n / 0x100 % 256) as u8,
        (n / 0x1_0000 % 256) as u8,
        (n / 0x100_0000 % 256) as u8,
        (n / 0x1_0000_0000 % 256) as u8,
        (n / 0x100_0000_0000 % 256) as u8,
        (n / 0x1_0000_0000_0000 % 256) as u8,
        (n / 0x100_0000_0000_0000 % 256) as u8,
    ]
}

pub fn push_le64(out: &mut Vec<u8>, n: u64)
    ensures
        final(out)@ == old(out)@ + le64(n),
{
    let ghost before = out@;
    out.push((n % 256) as u8);
    out.push((n / 0x100 % 256) as u8);
    out.push((n / 0x1_0000 % 256) as u8);
    out.push((n / 0x100_0000 % 256) as u8);
    out.push((n / 0x1_0000_0000 % 256) as u8);
    out.push((n / 0x100_0000_0000 % 256) as u8);
    out.push((n / 0x1_0000_0000_0000 % 256) as u8);
    out.push((n / 0x100_0000_0000_0000 % 256) as u8);
    assert(out@ =~= before + le64(n));
}

pub fn push_text(out: &mut Vec<u8>, s: &str)
    ensures
        final(out)@ == old(out)@ + vstd::utf8::encode_utf8(s@),
{
    let bytes = s.as_bytes();
    let ghost before = out@;
    let mut i: usize = 0;
    while i < bytes.len()
        invariant
            i <= bytes@.len(),
            out@ == before + bytes@.take(i as int),
        decreases bytes@.len() - i,
    {
        out.push(bytes[i]);
        i += 1;
        assert(out@ =~= before + bytes@.take(i as int));
    }
    assert(bytes@.take(bytes@.len() as int) =~= bytes@);
}

} // verus!
