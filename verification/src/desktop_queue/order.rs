//! Byte-wise order of file names, and why zero-padded sequence numbers sort
//! numerically.

use vstd::prelude::*;

use crate::text;

verus! {

/// `a` and `b` first differ at `k`, where `a` is the smaller.
pub open spec fn differs_below(a: Seq<char>, b: Seq<char>, k: int) -> bool {
    &&& 0 <= k <= a.len()
    &&& k < b.len()
    &&& forall|i: int| 0 <= i < k ==> a[i] == b[i]
    &&& (k == a.len() || a[k] < b[k])
}

/// Lexicographic order on file names.
pub open spec fn name_lt(a: Seq<char>, b: Seq<char>) -> bool {
    exists|k: int| #[trigger] differs_below(a, b, k)
}

pub proof fn lemma_name_lt_irreflexive(a: Seq<char>)
    ensures
        !name_lt(a, a),
{
}

pub proof fn lemma_name_lt_transitive(a: Seq<char>, b: Seq<char>, c: Seq<char>)
    requires
        name_lt(a, b),
        name_lt(b, c),
    ensures
        name_lt(a, c),
{
    let j = choose|k: int| #[trigger] differs_below(a, b, k);
    let k = choose|k: int| #[trigger] differs_below(b, c, k);
    if j < k {
        assert(differs_below(a, c, j));
    } else {
        assert(differs_below(a, c, k));
    }
}

/// Compares two file names.
pub fn name_less(a: &str, b: &str) -> (r: bool)
    ensures
        r == name_lt(a@, b@),
        !r ==> a@ == b@ || name_lt(b@, a@),
{
    let x = text::chars_of(a);
    let y = text::chars_of(b);
    let mut k: usize = 0;
    while k < x.len() && k < y.len()
        invariant
            x@ == a@,
            y@ == b@,
            k <= x@.len(),
            k <= y@.len(),
            forall|i: int| 0 <= i < k ==> a@[i] == b@[i],
        decreases x@.len() - k,
    {
        if x[k] < y[k] {
            assert(differs_below(a@, b@, k as int));
            return true;
        }
        if y[k] < x[k] {
            assert(differs_below(b@, a@, k as int));
            assert forall|j: int| !#[trigger] differs_below(a@, b@, j) by {}
            return false;
        }
        k += 1;
    }
    if k < y.len() {
        assert(differs_below(a@, b@, k as int));
        true
    } else {
        assert forall|j: int| !#[trigger] differs_below(a@, b@, j) by {}
        if k < x.len() {
            assert(differs_below(b@, a@, k as int));
        } else {
            assert(a@ =~= b@);
        }
        false
    }
}

/// The last `w` decimal digits of `n`.
pub open spec fn fixed(n: nat, w: nat) -> Seq<char>
    decreases w,
{
    if w == 0 {
        Seq::empty()
    } else {
        fixed(n / 10, (w - 1) as nat).push(text::digit_char(n))
    }
}

pub open spec fn pow10(w: nat) -> nat
    decreases w,
{
    if w == 0 {
        1
    } else {
        10 * pow10((w - 1) as nat)
    }
}

proof fn lemma_fixed_len(n: nat, w: nat)
    ensures
        fixed(n, w).len() == w,
    decreases w,
{
    if w > 0 {
        lemma_fixed_len(n / 10, (w - 1) as nat);
    }
}

proof fn lemma_fixed_zero(w: nat)
    ensures
        fixed(0, w) == Seq::new(w, |i: int| '0'),
    decreases w,
{
    if w > 0 {
        lemma_fixed_zero((w - 1) as nat);
    }
    assert(fixed(0, w) =~= Seq::new(w, |i: int| '0'));
}

proof fn lemma_fixed_is_padded(n: nat, w: nat)
    requires
        w > 0,
        n < pow10(w),
    ensures
        text::dec(n).len() <= w,
        fixed(n, w) == text::dec_padded(n, w),
    decreases w,
{
    if n < 10 {
        lemma_fixed_zero((w - 1) as nat);
        assert(n / 10 == 0);
        assert(text::dec_padded(n, w) =~= fixed(n, w));
    } else {
        if w == 1 {
            reveal_with_fuel(pow10, 2);
            assert(false);
        }
        let m = n / 10;
        let v = (w - 1) as nat;
        assert(m < pow10(v));
        lemma_fixed_is_padded(m, v);
        lemma_fixed_len(m, v);
        assert(fixed(n, w) == text::dec_padded(m, v).push(text::digit_char(n)));
        assert(text::dec_padded(n, w) =~= text::dec_padded(m, v).push(text::digit_char(n)));
    }
}

proof fn lemma_fixed_order(n: nat, m: nat, w: nat) -> (k: int)
    requires
        n < m < pow10(w),
    ensures
        0 <= k < w,
        differs_below(fixed(n, w), fixed(m, w), k),
    decreases w,
{
    reveal_with_fuel(pow10, 2);
    lemma_fixed_len(n, w);
    lemma_fixed_len(m, w);
    let v = (w - 1) as nat;
    lemma_fixed_len(n / 10, v);
    lemma_fixed_len(m / 10, v);
    if n / 10 < m / 10 {
        assert(m / 10 < pow10(v));
        lemma_fixed_order(n / 10, m / 10, v)
    } else {
        assert(n / 10 == m / 10);
        assert(text::digit_char(n) < text::digit_char(m));
        v as int
    }
}

/// Message file names carry a zero-padded sequence number, so that their
/// lexicographic order is the order of their sequence numbers.
pub proof fn lemma_padded_sequence_order(n: u64, m: u64, s: Seq<char>, t: Seq<char>)
    requires
        n < m,
    ensures
        name_lt(text::dec_padded(n as nat, 20) + s, text::dec_padded(m as nat, 20) + t),
{
    reveal_with_fuel(pow10, 21);
    lemma_fixed_is_padded(n as nat, 20);
    lemma_fixed_is_padded(m as nat, 20);
    lemma_fixed_len(n as nat, 20);
    lemma_fixed_len(m as nat, 20);
    let k = lemma_fixed_order(n as nat, m as nat, 20);
    assert(differs_below(text::dec_padded(n as nat, 20) + s, text::dec_padded(m as nat, 20) + t, k));
}

} // verus!
