//! Random identifiers.

use vstd::prelude::*;
use vstd::string::*;

use crate::text;

verus! {

/// `getrandom::fill` overwrites a buffer with bytes of the operating system's
/// random source. The contract claims only that a filled buffer keeps its
/// length; the bytes themselves are chance. The error is handed on as its text.
#[verifier::external_body]
pub(crate) fn fill_random(len: usize) -> (r: Result<Vec<u8>, String>)
    ensures
        r matches Ok(bytes) ==> bytes@.len() == len,
{
    let mut bytes = vec![0u8; len];
    match getrandom::fill(&mut bytes) {
        Ok(()) => Ok(bytes),
        Err(err) => Err(err.to_string()),
    }
}

/// `2 * bytes` random hexadecimal digits, or why there are none.
pub fn random_hex(bytes: usize) -> (r: Result<String, String>)
    ensures
        r matches Ok(s) ==> exists|b: Seq<u8>| b.len() == bytes && s@ == #[trigger] text::hex_of(b),
{
    match fill_random(bytes) {
        Ok(random) => {
            let s = text::hex_bytes(random.as_slice());
            assert(s@ == text::hex_of(random@));
            Ok(s)
        },
        Err(e) => Err(e),
    }
}

} // verus!
