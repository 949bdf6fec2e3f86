//! Character-level helpers over `String` and `str`, specified on the sequence
//! of characters a string holds.

use vstd::prelude::*;
use vstd::string::*;
use vstd::utf8::*;

verus! {

/// `String::push` appends one character.
pub assume_specification[ String::push ](s: &mut String, c: char)
    ensures
        final(s)@ == old(s)@.push(c),
;

/// `String::from_utf8` of std reads bytes as UTF-8, or refuses them where they
/// are not.
#[verifier::external_body]
pub(crate) fn read_utf8(bytes: Vec<u8>) -> (r: Option<String>)
    ensures
        match r {
            Some(s) => valid_utf8(bytes@) && s@ == decode_utf8(bytes@),
            None => !valid_utf8(bytes@),
        },
{
    String::from_utf8(bytes).ok()
}

/// The `{:?}` form of a string. The escaping is std's; it is named here, not
/// restated.
pub uninterp spec fn debug_text(s: Seq<char>) -> Seq<char>;

/// `format!("{:?}", s)` of std gives the quoted, escaped form of `s`.
#[verifier::external_body]
pub(crate) fn quoted(s: &str) -> (r: String)
    ensures
        r@ == debug_text(s@),
{
    format!("{s:?}")
}

/// Number of bytes of the UTF-8 encoding of `s`.
pub open spec fn utf8_len(s: Seq<char>) -> nat {
    encode_utf8(s).len()
}

pub open spec fn is_digit(c: char) -> bool {
    '0' <= c <= '9'
}

pub open spec fn is_lower(c: char) -> bool {
    'a' <= c <= 'z'
}

pub open spec fn is_upper(c: char) -> bool {
    'A' <= c <= 'Z'
}

pub open spec fn is_alnum(c: char) -> bool {
    is_digit(c) || is_lower(c) || is_upper(c)
}

/// The Unicode `White_Space` property.
pub open spec fn is_space(c: char) -> bool {
    ||| '\u{9}' <= c <= '\u{d}'
    ||| c == '\u{20}'
    ||| c == '\u{85}'
    ||| c == '\u{a0}'
    ||| c == '\u{1680}'
    ||| '\u{2000}' <= c <= '\u{200a}'
    ||| c == '\u{2028}'
    ||| c == '\u{2029}'
    ||| c == '\u{202f}'
    ||| c == '\u{205f}'
    ||| c == '\u{3000}'
}

/// Nothing is left of `s` once white space is trimmed.
pub open spec fn is_blank(s: Seq<char>) -> bool {
    forall|i: int| 0 <= i < s.len() ==> is_space(#[trigger] s[i])
}

pub open spec fn starts_with_at(s: Seq<char>, i: int, pat: Seq<char>) -> bool {
    0 <= i && i + pat.len() <= s.len() && s.subrange(i, i + pat.len()) == pat
}

pub open spec fn has_prefix(s: Seq<char>, pat: Seq<char>) -> bool {
    starts_with_at(s, 0, pat)
}

pub open spec fn has_suffix(s: Seq<char>, pat: Seq<char>) -> bool {
    starts_with_at(s, s.len() - pat.len(), pat)
}

pub open spec fn has_substring(s: Seq<char>, pat: Seq<char>) -> bool {
    exists|i: int| #[trigger] starts_with_at(s, i, pat)
}

/// `i` is the first place where `pat` occurs in `s`.
pub open spec fn first_occurrence(s: Seq<char>, pat: Seq<char>, i: int) -> bool {
    starts_with_at(s, i, pat) && forall|j: int| 0 <= j < i ==> !#[trigger] starts_with_at(s, j, pat)
}

pub open spec fn digit_char(n: nat) -> char {
    ((n % 10) as u8 + 48u8) as char
}

/// Decimal digits of `n`, without leading zeros.
pub open spec fn dec(n: nat) -> Seq<char>
    decreases n,
{
    if n < 10 {
        seq![digit_char(n)]
    } else {
        dec(n / 10).push(digit_char(n))
    }
}

/// Decimal digits of `n`, padded with zeros to at least `width` digits.
pub open spec fn dec_padded(n: nat, width: nat) -> Seq<char> {
    if dec(n).len() >= width {
        dec(n)
    } else {
        Seq::new((width - dec(n).len()) as nat, |i: int| '0') + dec(n)
    }
}

pub open spec fn hex_char(n: nat) -> char {
    if n < 10 {
        (n as u8 + 48u8) as char
    } else {
        (n as u8 + 87u8) as char
    }
}

/// Two lower-case hexadecimal digits for each byte.
pub open spec fn hex_of(bytes: Seq<u8>) -> Seq<char> {
    Seq::new(
        2 * bytes.len(),
        |i: int|
            if i % 2 == 0 {
                hex_char((bytes[i / 2] / 16) as nat)
            } else {
                hex_char((bytes[i / 2] % 16) as nat)
            },
    )
}

/// Lower-case hexadecimal digits of `n`, without leading zeros.
pub open spec fn hex(n: nat) -> Seq<char>
    decreases n,
{
    if n < 16 {
        seq![hex_char(n)]
    } else {
        hex(n / 16).push(hex_char(n % 16))
    }
}

pub fn space(c: char) -> (r: bool)
    ensures
        r == is_space(c),
{
    ('\u{9}' <= c && c <= '\u{d}') || c == '\u{20}' || c == '\u{85}' || c == '\u{a0}' || c
        == '\u{1680}' || ('\u{2000}' <= c && c <= '\u{200a}') || c == '\u{2028}' || c == '\u{2029}'
        || c == '\u{202f}' || c == '\u{205f}' || c == '\u{3000}'
}

pub fn digit(c: char) -> (r: bool)
    ensures
        r == is_digit(c),
{
    '0' <= c && c <= '9'
}

pub fn alnum(c: char) -> (r: bool)
    ensures
        r == is_alnum(c),
{
    ('0' <= c && c <= '9') || ('a' <= c && c <= 'z') || ('A' <= c && c <= 'Z')
}

/// The characters of `s`.
pub fn chars_of(s: &str) -> (r: Vec<char>)
    ensures
        r@ == s@,
{
    let mut v: Vec<char> = Vec::new();
    for c in it: s.chars()
        invariant
            it.seq() == s@,
            v@ == s@.take(it.index() as int),
    {
        v.push(c);
    }
    assert(s@.take(s@.len() as int) =~= s@);
    v
}

/// The string that holds the characters `v[from..to]`.
pub fn string_of(v: &Vec<char>, from: usize, to: usize) -> (r: String)
    requires
        from <= to <= v@.len(),
    ensures
        r@ == v@.subrange(from as int, to as int),
{
    let mut s = String::new();
    let mut i: usize = from;
    while i < to
        invariant
            from <= i <= to <= v@.len(),
            s@ == v@.subrange(from as int, i as int),
        decreases to - i,
    {
        s.push(v[i]);
        i += 1;
        assert(s@ =~= v@.subrange(from as int, i as int));
    }
    s
}

/// Length of `s` in UTF-8 bytes.
pub fn byte_len(s: &str) -> (n: usize)
    ensures
        n == utf8_len(s@),
{
    s.as_bytes().len()
}

pub fn str_eq(a: &str, b: &str) -> (r: bool)
    ensures
        r == (a@ == b@),
{
    let x = a.as_bytes();
    let y = b.as_bytes();
    if x.len() != y.len() {
        return false;
    }
    let mut i: usize = 0;
    while i < x.len()
        invariant
            i <= x@.len() == y@.len(),
            x@ == encode_utf8(a@),
            y@ == encode_utf8(b@),
            forall|j: int| 0 <= j < i ==> x@[j] == y@[j],
        decreases x@.len() - i,
    {
        if x[i] != y[i] {
            return false;
        }
        i += 1;
    }
    proof {
        assert(x@ =~= y@);
        encode_utf8_decode_utf8(a@);
        encode_utf8_decode_utf8(b@);
    }
    true
}

/// Both absent, or both present and equal.
pub fn opt_str_eq(a: &Option<String>, b: &Option<String>) -> (r: bool)
    ensures
        r == (opt_view(*a) == opt_view(*b)),
{
    match (a, b) {
        (None, None) => true,
        (Some(x), Some(y)) => str_eq(x.as_str(), y.as_str()),
        _ => false,
    }
}

pub open spec fn opt_view(a: Option<String>) -> Option<Seq<char>> {
    match a {
        Some(s) => Some(s@),
        None => None,
    }
}

/// The view of an optional value.
pub open spec fn viewed<T: View>(x: Option<T>) -> Option<T::V> {
    match x {
        Some(v) => Some(v@),
        None => None,
    }
}

/// The view of a result.
pub open spec fn outcome<T: View, E: View>(x: Result<T, E>) -> Result<T::V, E::V> {
    match x {
        Ok(v) => Ok(v@),
        Err(e) => Err(e@),
    }
}

pub open spec fn views(v: Seq<String>) -> Seq<Seq<char>> {
    v.map_values(|s: String| s@)
}

pub open spec fn pair_views(v: Seq<(String, String)>) -> Seq<(Seq<char>, Seq<char>)> {
    v.map_values(|p: (String, String)| (p.0@, p.1@))
}

pub fn contains_char(s: &str, c: char) -> (r: bool)
    ensures
        r == s@.contains(c),
{
    let v = chars_of(s);
    let mut i: usize = 0;
    while i < v.len()
        invariant
            i <= v@.len(),
            v@ == s@,
            forall|j: int| 0 <= j < i ==> s@[j] != c,
        decreases v@.len() - i,
    {
        if v[i] == c {
            assert(s@[i as int] == c);
            return true;
        }
        i += 1;
    }
    false
}

pub fn blank(s: &str) -> (r: bool)
    ensures
        r == is_blank(s@),
{
    let v = chars_of(s);
    let mut i: usize = 0;
    while i < v.len()
        invariant
            i <= v@.len(),
            v@ == s@,
            forall|j: int| 0 <= j < i ==> is_space(#[trigger] s@[j]),
        decreases v@.len() - i,
    {
        if !space(v[i]) {
            assert(!is_space(s@[i as int]));
            return false;
        }
        i += 1;
    }
    true
}

fn matches_at(v: &Vec<char>, i: usize, pat: &Vec<char>) -> (r: bool)
    requires
        i <= v@.len(),
    ensures
        r == starts_with_at(v@, i as int, pat@),
{
    let n: usize = v.len();
    if n - i < pat.len() {
        return false;
    }
    let mut k: usize = 0;
    while k < pat.len()
        invariant
            k <= pat@.len(),
            n == v@.len(),
            i + pat@.len() <= n,
            forall|j: int| 0 <= j < k ==> v@[i + j] == pat@[j],
        decreases pat@.len() - k,
    {
        if v[i + k] != pat[k] {
            assert(v@.subrange(i as int, i + pat@.len())[k as int] != pat@[k as int]);
            return false;
        }
        k += 1;
    }
    assert(v@.subrange(i as int, i + pat@.len()) =~= pat@);
    true
}

pub fn prefixed(s: &str, pat: &str) -> (r: bool)
    ensures
        r == has_prefix(s@, pat@),
{
    matches_at(&chars_of(s), 0, &chars_of(pat))
}

pub fn suffixed(s: &str, pat: &str) -> (r: bool)
    ensures
        r == has_suffix(s@, pat@),
{
    let v = chars_of(s);
    let p = chars_of(pat);
    if p.len() > v.len() {
        return false;
    }
    matches_at(&v, v.len() - p.len(), &p)
}

/// First place where `pat` occurs in `s`.
pub fn find_str(s: &str, pat: &str) -> (r: Option<usize>)
    ensures
        match r {
            Some(i) => first_occurrence(s@, pat@, i as int),
            None => !has_substring(s@, pat@),
        },
{
    let v = chars_of(s);
    let p = chars_of(pat);
    let n: usize = v.len();
    let mut i: usize = 0;
    while i <= n
        invariant
            i <= n + 1,
            n == v@.len(),
            v@ == s@,
            p@ == pat@,
            forall|j: int| 0 <= j < i ==> !#[trigger] starts_with_at(s@, j, pat@),
        decreases n + 1 - i,
    {
        if matches_at(&v, i, &p) {
            return Some(i);
        }
        if i == n {
            assert forall|j: int| !#[trigger] starts_with_at(s@, j, pat@) by {}
            return None;
        }
        i += 1;
    }
    assert forall|j: int| !#[trigger] starts_with_at(s@, j, pat@) by {}
    None
}

pub fn contains_str(s: &str, pat: &str) -> (r: bool)
    ensures
        r == has_substring(s@, pat@),
{
    match find_str(s, pat) {
        Some(i) => {
            assert(starts_with_at(s@, i as int, pat@));
            true
        },
        None => false,
    }
}

/// What stands before and after the first occurrence of `pat`.
pub open spec fn split_first(s: Seq<char>, pat: Seq<char>) -> Option<(Seq<char>, Seq<char>)> {
    if has_substring(s, pat) {
        let i = choose|i: int| first_occurrence(s, pat, i);
        Some((s.subrange(0, i), s.subrange(i + pat.len(), s.len() as int)))
    } else {
        None
    }
}

pub proof fn lemma_split_first(s: Seq<char>, pat: Seq<char>, i: int)
    requires
        first_occurrence(s, pat, i),
    ensures
        split_first(s, pat) == Some(
            (s.subrange(0, i), s.subrange(i + pat.len(), s.len() as int)),
        ),
{
    let k = choose|k: int| first_occurrence(s, pat, k);
    assert(first_occurrence(s, pat, k));
    if k < i {
        assert(!starts_with_at(s, k, pat));
    } else if i < k {
        assert(!starts_with_at(s, i, pat));
    }
}

/// Where a pattern occurs, it occurs a first time.
pub proof fn lemma_first_exists(s: Seq<char>, pat: Seq<char>, k: int)
    requires
        starts_with_at(s, k, pat),
    ensures
        exists|i: int| i <= k && first_occurrence(s, pat, i),
    decreases k,
{
    if exists|j: int| 0 <= j < k && #[trigger] starts_with_at(s, j, pat) {
        let j = choose|j: int| 0 <= j < k && #[trigger] starts_with_at(s, j, pat);
        lemma_first_exists(s, pat, j);
    } else {
        assert(first_occurrence(s, pat, k));
    }
}

/// A text that is split is what stands before, the pattern, and what stands after; the
/// pattern does not occur any earlier.
pub proof fn lemma_split_surrounds(s: Seq<char>, pat: Seq<char>)
    ensures
        match split_first(s, pat) {
            Some((before, after)) => s == before + pat + after && first_occurrence(
                s,
                pat,
                before.len() as int,
            ),
            None => !has_substring(s, pat),
        },
{
    if has_substring(s, pat) {
        let k = choose|k: int| #[trigger] starts_with_at(s, k, pat);
        lemma_first_exists(s, pat, k);
        let i = choose|i: int| first_occurrence(s, pat, i);
        assert(first_occurrence(s, pat, i));
        lemma_split_first(s, pat, i);
        assert(s =~= s.subrange(0, i) + s.subrange(i, i + pat.len()) + s.subrange(
            i + pat.len(),
            s.len() as int,
        ));
    }
}

pub fn split_once(s: &str, pat: &str) -> (r: Option<(String, String)>)
    ensures
        match r {
            Some((a, b)) => split_first(s@, pat@) == Some((a@, b@)),
            None => split_first(s@, pat@) is None,
        },
{
    match find_str(s, pat) {
        Some(i) => {
            let v = chars_of(s);
            let p = chars_of(pat);
            proof {
                lemma_split_first(s@, pat@, i as int);
            }
            let n: usize = v.len();
            Some((string_of(&v, 0, i), string_of(&v, i + p.len(), n)))
        },
        None => None,
    }
}

fn digit_of(n: u64) -> (c: char)
    requires
        n < 10,
    ensures
        c == digit_char(n as nat),
{
    (n as u8 + 48u8) as char
}

/// Decimal text of `n`.
pub fn dec_string(n: u64) -> (r: String)
    ensures
        r@ == dec(n as nat),
    decreases n,
{
    if n < 10 {
        let mut s = String::new();
        s.push(digit_of(n));
        assert(s@ =~= dec(n as nat));
        s
    } else {
        let mut s = dec_string(n / 10);
        s.push(digit_of(n % 10));
        s
    }
}

/// Decimal text of `n`, padded with zeros to twenty digits.
pub fn dec_string_20(n: u64) -> (r: String)
    ensures
        r@ == dec_padded(n as nat, 20),
{
    let digits = chars_of(dec_string(n).as_str());
    let mut s = String::new();
    let mut i: usize = digits.len();
    while i < 20
        invariant
            digits@ == dec(n as nat),
            digits@.len() <= 20 ==> digits@.len() <= i <= 20,
            digits@.len() > 20 ==> i == digits@.len(),
            s@ == Seq::new((i - digits@.len()) as nat, |k: int| '0'),
        decreases 20 - i,
    {
        s.push('0');
        i += 1;
        assert(s@ =~= Seq::new((i - digits@.len()) as nat, |k: int| '0'));
    }
    let tail = string_of(&digits, 0, digits.len());
    assert(tail@ =~= digits@);
    s.append(tail.as_str());
    assert(s@ =~= dec_padded(n as nat, 20));
    s
}

fn hex_of_nibble(n: u8) -> (c: char)
    requires
        n < 16,
    ensures
        c == hex_char(n as nat),
{
    if n < 10 {
        (n + 48u8) as char
    } else {
        (n + 87u8) as char
    }
}

/// Lower-case hexadecimal text of `bytes`.
pub fn hex_bytes(bytes: &[u8]) -> (r: String)
    ensures
        r@ == hex_of(bytes@),
{
    let mut s = String::new();
    let mut i: usize = 0;
    while i < bytes.len()
        invariant
            i <= bytes@.len(),
            s@ == hex_of(bytes@.take(i as int)),
        decreases bytes@.len() - i,
    {
        let b = bytes[i];
        s.push(hex_of_nibble(b / 16));
        s.push(hex_of_nibble(b % 16));
        i += 1;
        assert(s@ =~= hex_of(bytes@.take(i as int)));
    }
    assert(bytes@.take(bytes@.len() as int) =~= bytes@);
    s
}

/// Lower-case hexadecimal text of `n`.
pub fn hex_string(n: u128) -> (r: String)
    ensures
        r@ == hex(n as nat),
    decreases n,
{
    if n < 16 {
        let mut s = String::new();
        s.push(hex_of_nibble(n as u8));
        assert(s@ =~= hex(n as nat));
        s
    } else {
        let mut s = hex_string(n / 16);
        s.push(hex_of_nibble((n % 16) as u8));
        s
    }
}

/// The number that a sequence of decimal digits stands for.
pub open spec fn digits_value(s: Seq<char>) -> nat
    decreases s.len(),
{
    if s.len() == 0 {
        0
    } else {
        10 * digits_value(s.drop_last()) + (s.last() as nat - '0' as nat) as nat
    }
}

pub open spec fn all_digits(s: Seq<char>) -> bool {
    s.len() > 0 && forall|i: int| 0 <= i < s.len() ==> is_digit(#[trigger] s[i])
}

/// What follows an optional plus sign.
pub open spec fn unsigned_digits(s: Seq<char>) -> Seq<char> {
    if s.len() > 1 && s[0] == '+' {
        s.subrange(1, s.len() as int)
    } else {
        s
    }
}

/// An unsigned decimal number no larger than `max`: digits, perhaps after a
/// plus sign.
pub open spec fn parsed_uint(s: Seq<char>, max: nat) -> Option<nat> {
    let d = unsigned_digits(s);
    if all_digits(d) && digits_value(d) <= max {
        Some(digits_value(d))
    } else {
        None
    }
}

/// A number that is written in decimal digits reads back as that number, under every
/// limit that admits it.
pub proof fn lemma_decimals_read_back(n: nat, max: nat)
    ensures
        parsed_uint(dec(n), max) == (if n <= max {
            Some(n)
        } else {
            None
        }),
        forall|i: int| 0 <= i < dec(n).len() ==> '0' <= #[trigger] dec(n)[i] <= '9',
    decreases n,
{
    let d = dec(n);
    assert('0' <= digit_char(n) <= '9' && digit_char(n) as nat - '0' as nat == n % 10);
    if n < 10 {
        assert(d.drop_last() =~= Seq::<char>::empty());
        assert(digits_value(d.drop_last()) == 0);
        assert(d.last() == digit_char(n));
        assert(n % 10 == n);
    } else {
        lemma_decimals_read_back(n / 10, n / 10);
        assert(d.drop_last() =~= dec(n / 10));
        assert(d.last() == digit_char(n));
        assert(unsigned_digits(dec(n / 10)) == dec(n / 10));
        assert(digits_value(dec(n / 10)) == n / 10);
        assert(n == 10 * (n / 10) + n % 10);
        assert forall|i: int| 0 <= i < d.len() implies '0' <= #[trigger] d[i] <= '9' by {
            if i < d.len() - 1 {
                assert(d[i] == dec(n / 10)[i]);
            }
        }
    }
    assert(digits_value(d) == n);
    assert(d[0] != '+');
    assert(all_digits(d));
}

/// Different numbers are written differently.
pub proof fn lemma_decimals_tell_numbers_apart(m: nat, n: nat)
    ensures
        dec(m) == dec(n) <==> m == n,
{
    lemma_decimals_read_back(m, m + n);
    lemma_decimals_read_back(n, m + n);
}

proof fn lemma_digits_prefix(s: Seq<char>, k: int)
    requires
        0 <= k <= s.len(),
    ensures
        digits_value(s.take(k)) <= digits_value(s),
    decreases s.len() - k,
{
    if k < s.len() {
        assert(s.take(k + 1).drop_last() =~= s.take(k));
        lemma_digits_prefix(s, k + 1);
    } else {
        assert(s.take(k) =~= s);
    }
}

/// Reads an unsigned decimal number.
pub fn parse_uint(s: &str, max: u64) -> (r: Option<u64>)
    ensures
        match r {
            Some(n) => parsed_uint(s@, max as nat) == Some(n as nat),
            None => parsed_uint(s@, max as nat) is None,
        },
{
    let v = chars_of(s);
    let n: usize = v.len();
    let start: usize = if n > 1 && v[0] == '+' {
        1
    } else {
        0
    };
    let ghost d = unsigned_digits(s@);
    assert(d =~= s@.subrange(start as int, n as int));
    if n == start {
        return None;
    }
    let mut value: u64 = 0;
    let mut i: usize = start;
    assert(d.take(0) =~= Seq::<char>::empty());
    while i < n
        invariant
            start <= i <= n == v@.len(),
            v@ == s@,
            d == s@.subrange(start as int, n as int),
            d == unsigned_digits(s@),
            n > start,
            forall|j: int| start <= j < i ==> is_digit(#[trigger] v@[j]),
            value == digits_value(d.take(i - start)),
            value <= max,
        decreases n - i,
    {
        let c = v[i];
        proof {
            assert(d[i - start] == c);
            assert(d.take(i - start + 1).drop_last() =~= d.take(i - start));
            lemma_digits_prefix(d, i - start + 1);
        }
        if !digit(c) {
            assert(!is_digit(d[i - start]));
            return None;
        }
        let digit_value: u64 = c as u64 - '0' as u64;
        let shifted: u64 = match value.checked_mul(10) {
            Some(x) => x,
            None => return None,
        };
        let sum: u64 = match shifted.checked_add(digit_value) {
            Some(x) => x,
            None => return None,
        };
        if sum > max {
            return None;
        }
        value = sum;
        i += 1;
    }
    assert(d.take(d.len() as int) =~= d);
    assert forall|j: int| 0 <= j < d.len() implies is_digit(#[trigger] d[j]) by {
        assert(v@[start + j] == d[j]);
    }
    Some(value)
}

/// A copy of `v` that holds the same strings.
pub fn clone_strings(v: &Vec<String>) -> (r: Vec<String>)
    ensures
        r@ == v@,
{
    let mut out: Vec<String> = Vec::new();
    let mut i: usize = 0;
    while i < v.len()
        invariant
            i <= v@.len(),
            out@ == v@.take(i as int),
        decreases v@.len() - i,
    {
        out.push(v[i].clone());
        i += 1;
        assert(out@ =~= v@.take(i as int));
    }
    assert(v@.take(v@.len() as int) =~= v@);
    out
}

/// A copy of an optional string.
pub fn clone_opt(s: &Option<String>) -> (r: Option<String>)
    ensures
        r == *s,
{
    match s {
        Some(x) => Some(x.clone()),
        None => None,
    }
}

/// A copy of `v` that holds the same pairs.
pub fn clone_pairs(v: &Vec<(String, String)>) -> (r: Vec<(String, String)>)
    ensures
        r@ == v@,
{
    let mut out: Vec<(String, String)> = Vec::new();
    let mut i: usize = 0;
    while i < v.len()
        invariant
            i <= v@.len(),
            out@ == v@.take(i as int),
        decreases v@.len() - i,
    {
        out.push((v[i].0.clone(), v[i].1.clone()));
        i += 1;
        assert(out@ =~= v@.take(i as int));
    }
    assert(v@.take(v@.len() as int) =~= v@);
    out
}

pub fn contains_string(v: &Vec<String>, s: &str) -> (r: bool)
    ensures
        r == views(v@).contains(s@),
{
    let mut i: usize = 0;
    while i < v.len()
        invariant
            i <= v@.len(),
            forall|j: int| 0 <= j < i ==> #[trigger] v@[j]@ != s@,
        decreases v@.len() - i,
    {
        if str_eq(v[i].as_str(), s) {
            assert(views(v@)[i as int] == s@);
            return true;
        }
        i += 1;
    }
    assert forall|j: int| 0 <= j < views(v@).len() implies views(v@)[j] != s@ by {
        assert(v@[j]@ != s@);
    }
    false
}

/// `s` without the copies of `pat` that it begins with.
pub open spec fn without_prefixes(s: Seq<char>, pat: Seq<char>) -> Seq<char>
    decreases s.len(),
{
    if pat.len() > 0 && has_prefix(s, pat) {
        without_prefixes(s.skip(pat.len() as int), pat)
    } else {
        s
    }
}

pub fn trim_prefixes(s: &str, pat: &str) -> (r: String)
    ensures
        r@ == without_prefixes(s@, pat@),
{
    let v = chars_of(s);
    let p = chars_of(pat);
    let n: usize = v.len();
    let m: usize = p.len();
    let mut from: usize = 0;
    assert(v@.skip(0) =~= v@);
    while m > 0 && n - from >= m && matches_at(&v, from, &p)
        invariant
            from <= n == v@.len(),
            m == p@.len(),
            p@ == pat@,
            v@ == s@,
            without_prefixes(s@, pat@) == without_prefixes(v@.skip(from as int), pat@),
        decreases n - from,
    {
        assert(v@.skip(from as int).subrange(0, m as int) =~= v@.subrange(
            from as int,
            from + m,
        ));
        assert(has_prefix(v@.skip(from as int), pat@));
        assert(v@.skip(from as int).skip(m as int) =~= v@.skip(from + m));
        from += m;
    }
    assert(m > 0 ==> !has_prefix(v@.skip(from as int), pat@)) by {
        if m > 0 && has_prefix(v@.skip(from as int), pat@) {
            assert(v@.skip(from as int).subrange(0, m as int) =~= v@.subrange(
                from as int,
                from + m,
            ));
        }
    }
    let r = string_of(&v, from, n);
    assert(r@ =~= v@.skip(from as int));
    r
}

/// No string stands in `v` twice.
pub fn distinct(v: &Vec<String>) -> (r: bool)
    ensures
        r == views(v@).no_duplicates(),
{
    let mut i: usize = 0;
    while i < v.len()
        invariant
            i <= v@.len(),
            forall|a: int, b: int|
                0 <= a < b < i ==> views(v@)[a] != views(v@)[b],
        decreases v@.len() - i,
    {
        let mut j: usize = 0;
        while j < i
            invariant
                j <= i < v@.len(),
                forall|a: int| 0 <= a < j ==> #[trigger] views(v@)[a] != views(v@)[i as int],
            decreases i - j,
        {
            if str_eq(v[j].as_str(), v[i].as_str()) {
                assert(views(v@)[j as int] == views(v@)[i as int]);
                return false;
            }
            j += 1;
        }
        i += 1;
    }
    assert forall|a: int, b: int| 0 <= a < views(v@).len() && 0 <= b < views(v@).len() && a
        != b implies views(v@)[a] != views(v@)[b] by {
        if a < b {
            assert(views(v@)[a] != views(v@)[b]);
        } else {
            assert(views(v@)[b] != views(v@)[a]);
        }
    }
    true
}

/// `s` without the strings that stood in it before.
pub open spec fn firsts(s: Seq<Seq<char>>) -> Seq<Seq<char>>
    decreases s.len(),
{
    if s.len() == 0 {
        s
    } else {
        let r = firsts(s.drop_last());
        if r.contains(s.last()) {
            r
        } else {
            r.push(s.last())
        }
    }
}

/// Each string of `s` is kept once, and nothing else is.
pub proof fn lemma_firsts_keep_each_once(s: Seq<Seq<char>>, x: Seq<char>)
    ensures
        firsts(s).contains(x) <==> s.contains(x),
        firsts(s).no_duplicates(),
    decreases s.len(),
{
    if s.len() > 0 {
        let front = s.drop_last();
        let r = firsts(front);
        lemma_firsts_keep_each_once(front, x);
        if s.contains(x) {
            let i = s.index_of(x);
            if i < front.len() {
                assert(front[i] == x);
                assert(front.contains(x));
                assert(firsts(s)[r.index_of(x)] == x);
            } else if !r.contains(s.last()) {
                assert(firsts(s).last() == x);
            }
        }
        if firsts(s).contains(x) {
            let k = firsts(s).index_of(x);
            if k < r.len() {
                assert(r[k] == x);
                assert(front.contains(x));
                assert(s[front.index_of(x)] == x);
            } else {
                assert(s[s.len() - 1] == x);
            }
        }
    }
}

pub fn keep_firsts(v: &Vec<String>) -> (r: Vec<String>)
    ensures
        views(r@) == firsts(views(v@)),
{
    let mut out: Vec<String> = Vec::new();
    let ghost all = views(v@);
    let mut i: usize = 0;
    assert(views(out@) =~= firsts(all.take(0)));
    while i < v.len()
        invariant
            i <= v@.len() == all.len(),
            all == views(v@),
            views(out@) == firsts(all.take(i as int)),
        decreases v@.len() - i,
    {
        assert(all.take(i as int + 1).drop_last() =~= all.take(i as int));
        assert(all.take(i as int + 1).last() == v@[i as int]@);
        if !contains_string(&out, v[i].as_str()) {
            let ghost before = views(out@);
            out.push(v[i].clone());
            assert(views(out@) =~= before.push(v@[i as int]@));
        }
        i += 1;
    }
    assert(all.take(all.len() as int) =~= all);
    out
}

/// Appends `more` to `v`.
pub fn extend(v: &mut Vec<String>, more: &Vec<String>)
    ensures
        views(final(v)@) == views(old(v)@) + views(more@),
{
    let ghost before = views(v@);
    let mut i: usize = 0;
    assert(before + views(more@).take(0) =~= before);
    while i < more.len()
        invariant
            i <= more@.len(),
            views(v@) == before + views(more@).take(i as int),
        decreases more@.len() - i,
    {
        let ghost so_far = v@;
        v.push(more[i].clone());
        assert(views(v@) =~= views(so_far).push(more@[i as int]@));
        assert(views(more@).take(i as int + 1) =~= views(more@).take(i as int).push(
            more@[i as int]@,
        ));
        assert(views(v@) =~= before + views(more@).take(i as int + 1));
        i += 1;
    }
    assert(views(more@).take(more@.len() as int) =~= views(more@));
}

/// The two hold the same strings in the same order.
pub fn same_strings(a: &Vec<String>, b: &Vec<String>) -> (r: bool)
    ensures
        r == (views(a@) == views(b@)),
{
    if a.len() != b.len() {
        assert(views(a@).len() != views(b@).len());
        return false;
    }
    let mut i: usize = 0;
    while i < a.len()
        invariant
            i <= a@.len() == b@.len(),
            forall|j: int| 0 <= j < i ==> views(a@)[j] == views(b@)[j],
        decreases a@.len() - i,
    {
        if !str_eq(a[i].as_str(), b[i].as_str()) {
            assert(views(a@)[i as int] != views(b@)[i as int]);
            return false;
        }
        i += 1;
    }
    assert(views(a@) =~= views(b@));
    true
}

/// Texts one after the other, with `, ` between them.
pub open spec fn listed(items: Seq<Seq<char>>) -> Seq<char>
    decreases items.len(),
{
    if items.len() == 0 {
        Seq::empty()
    } else if items.len() == 1 {
        items[0]
    } else {
        listed(items.drop_last()) + ", "@ + items.last()
    }
}

/// Texts one after the other, with `, ` between them.
pub fn listing(items: &Vec<String>) -> (r: String)
    ensures
        r@ == listed(views(items@)),
{
    let mut out = String::new();
    let ghost all = views(items@);
    let mut i: usize = 0;
    assert(all.take(0) =~= Seq::<Seq<char>>::empty());
    while i < items.len()
        invariant
            i <= items@.len(),
            all == views(items@),
            out@ == listed(all.take(i as int)),
        decreases items@.len() - i,
    {
        proof {
            assert(all.take(i as int + 1).drop_last() =~= all.take(i as int));
            assert(all.take(i as int + 1).last() == items@[i as int]@);
        }
        if i > 0 {
            out.append(", ");
        }
        out.append(items[i].as_str());
        assert(i == 0 ==> out@ =~= items@[0]@);
        i += 1;
    }
    assert(all.take(items@.len() as int) =~= all);
    out
}

} // verus!
