//! Cutting pane output down to what a tool answer may hold.

use vstd::prelude::*;
use vstd::string::*;
use vstd::utf8::*;

use super::{BridgeError, Details};
use crate::text;

verus! {

/// `s` without its first `k` characters.
pub open spec fn tail(s: Seq<char>, k: int) -> Seq<char> {
    s.subrange(k, s.len() as int)
}

proof fn lemma_encode_concat(a: Seq<char>, b: Seq<char>)
    ensures
        encode_utf8(a + b) == encode_utf8(a) + encode_utf8(b),
    decreases a.len(),
{
    if a.len() == 0 {
        assert(a + b =~= b);
        assert(encode_utf8(a) =~= Seq::<u8>::empty());
    } else {
        let rest = a.drop_first();
        assert((a + b).drop_first() =~= rest + b);
        assert((a + b)[0] == a[0]);
        lemma_encode_concat(rest, b);
        assert(encode_utf8(a + b) =~= encode_utf8(a) + encode_utf8(b));
    }
}

/// A shorter tail takes up fewer bytes.
proof fn lemma_tail_len(s: Seq<char>, k: int)
    requires
        0 <= k < s.len(),
    ensures
        text::utf8_len(tail(s, k)) == text::utf8_len(seq![s[k]]) + text::utf8_len(tail(s, k + 1)),
        text::utf8_len(seq![s[k]]) > 0,
{
    assert(tail(s, k) =~= seq![s[k]] + tail(s, k + 1));
    lemma_encode_concat(seq![s[k]], tail(s, k + 1));
    let c = seq![s[k]];
    assert(c.drop_first() =~= Seq::<char>::empty());
    assert(encode_utf8(c) =~= encode_scalar(s[k] as u32) + encode_utf8(c.drop_first()));
}

proof fn lemma_tail_monotone(s: Seq<char>, i: int, j: int)
    requires
        0 <= i <= j <= s.len(),
    ensures
        text::utf8_len(tail(s, j)) <= text::utf8_len(tail(s, i)),
    decreases j - i,
{
    if i < j {
        lemma_tail_len(s, i);
        lemma_tail_monotone(s, i + 1, j);
    }
}

/// The longest tail of `text` that fits into `max_bytes` bytes of UTF-8; says
/// whether anything was cut off.
pub fn truncate_utf8_tail(text: &mut String, max_bytes: usize) -> (cut: bool)
    ensures
        cut == (text::utf8_len(old(text)@) > max_bytes),
        !cut ==> final(text)@ == old(text)@,
        cut ==> exists|k: int|
            0 < k <= old(text)@.len() && final(text)@ == #[trigger] tail(old(text)@, k)
                && text::utf8_len(tail(old(text)@, k)) <= max_bytes && text::utf8_len(
                tail(old(text)@, k - 1),
            ) > max_bytes,
{
    if text::byte_len(text.as_str()) <= max_bytes {
        return false;
    }
    let ghost s = text@;
    let v = text::chars_of(text.as_str());
    let n: usize = v.len();
    let mut k: usize = 0;
    let mut rest = text::string_of(&v, 0, n);
    proof {
        assert(rest@ =~= s);
        assert(tail(s, 0) =~= s);
    }
    while text::byte_len(rest.as_str()) > max_bytes
        invariant
            k <= n,
            n == s.len(),
            v@ == s,
            rest@ == tail(s, k as int),
            k > 0 ==> text::utf8_len(tail(s, k - 1)) > max_bytes,
            k == 0 ==> text::utf8_len(tail(s, 0)) > max_bytes,
        decreases n - k,
    {
        proof {
            if k == n {
                assert(tail(s, n as int) =~= Seq::<char>::empty());
                assert(encode_utf8(tail(s, n as int)) =~= Seq::<u8>::empty());
            }
        }
        k += 1;
        rest = text::string_of(&v, k, n);
    }
    *text = rest;
    assert(text@ == tail(s, k as int));
    true
}

/// A tail that fits was asked about, and its size is small enough.
pub open spec fn fits<F: Fn(&str) -> Result<usize, BridgeError>>(
    measure: F,
    s: Seq<char>,
    max_bytes: usize,
    verdict: bool,
) -> bool {
    exists|t: &str, n: usize|
        t@ == s && #[trigger] call_ensures(measure, (t,), Ok(n)) && verdict == (n <= max_bytes)
}

/// The size of an answer, where it is a function of the text and does not grow
/// when the text gets shorter.
pub open spec fn measures<F: Fn(&str) -> Result<usize, BridgeError>>(
    measure: F,
    size: spec_fn(Seq<char>) -> nat,
    s: Seq<char>,
) -> bool {
    &&& forall|t: &str, r: Result<usize, BridgeError>|
        #[trigger] call_ensures(measure, (t,), r) ==> (r matches Ok(n) && n == size(t@))
    &&& forall|i: int, j: int|
        0 <= i <= j <= s.len() ==> size(#[trigger] tail(s, j)) <= size(#[trigger] tail(s, i))
}

/// A tail of `original` whose answer, as `measure` gives its size, fits into
/// `max_bytes`, and that of the next longer tail does not.
pub fn longest_fitting_tail<F: Fn(&str) -> Result<usize, BridgeError>>(
    original: &str,
    max_bytes: usize,
    measure: F,
) -> (r: Result<Option<String>, BridgeError>)
    requires
        forall|t: &str| #[trigger] call_requires(measure, (t,)),
    ensures
        r matches Ok(Some(best)) ==> exists|k: int|
            0 <= k <= original@.len() && best@ == #[trigger] tail(original@, k) && fits(
                measure,
                tail(original@, k),
                max_bytes,
                true,
            ) && (k > 0 ==> fits(measure, tail(original@, k - 1), max_bytes, false)),
        r matches Ok(None) ==> fits(measure, tail(original@, original@.len() as int), max_bytes, false),
        r matches Err(e) ==> exists|t: &str| #[trigger] call_ensures(measure, (t,), Err(e)),
        forall|size: spec_fn(Seq<char>) -> nat|
            #![trigger measures(measure, size, original@)]
            measures(measure, size, original@) ==> match r {
                Ok(Some(best)) => exists|k: int|
                    0 <= k <= original@.len() && best@ == #[trigger] tail(original@, k) && size(
                        tail(original@, k),
                    ) <= max_bytes && (k > 0 ==> size(tail(original@, k - 1)) > max_bytes),
                Ok(None) => size(tail(original@, original@.len() as int)) > max_bytes,
                Err(_) => false,
            },
{
    let v = text::chars_of(original);
    let n: usize = v.len();
    let ghost s = original@;
    let mut low: u128 = 0;
    // One more than the last place where a tail may begin.
    let mut high: u128 = n as u128 + 1;
    let mut best: Option<String> = None;
    while low < high
        invariant
            low <= high <= n + 1,
            n == s.len(),
            v@ == s,
            s == original@,
            forall|t: &str| #[trigger] call_requires(measure, (t,)),
            best is None <==> high == n + 1,
            best matches Some(b) ==> b@ == tail(s, high as int) && fits(
                measure,
                tail(s, high as int),
                max_bytes,
                true,
            ),
            low > 0 ==> fits(measure, tail(s, low - 1), max_bytes, false),
            forall|size: spec_fn(Seq<char>) -> nat|
                #![trigger measures(measure, size, s)]
                measures(measure, size, s) ==> (best is Some ==> size(tail(s, high as int))
                    <= max_bytes) && (low > 0 ==> size(tail(s, low - 1)) > max_bytes),
        decreases high - low,
    {
        let middle: u128 = low + (high - low) / 2;
        let candidate = text::string_of(&v, middle as usize, n);
        let shown = candidate.as_str();
        match measure(shown) {
            Err(e) => {
                assert(call_ensures(measure, (shown,), Err(e)));
                return Err(e);
            },
            Ok(size) => {
                assert(call_ensures(measure, (shown,), Ok(size)));
                assert(shown@ == tail(s, middle as int));
                if size <= max_bytes {
                    best = Some(candidate);
                    high = middle;
                } else {
                    low = middle + 1;
                }
            },
        }
    }
    Ok(best)
}

/// An answer that is too large is not given.
pub fn check_result_size(actual_bytes: usize, max_bytes: usize, message: &str) -> (r: Result<
    (),
    BridgeError,
>)
    ensures
        r is Ok == (actual_bytes <= max_bytes),
        r matches Err(e) ==> super::is_bridge_error(e, "result_too_large"@, message@, false)
            && e.details == Some(Details::Size { actual_bytes, max_bytes }),
{
    if actual_bytes > max_bytes {
        return Err(
            BridgeError::new("result_too_large", message, false).with_details(
                Details::Size { actual_bytes, max_bytes },
            ),
        );
    }
    Ok(())
}

} // verus!
