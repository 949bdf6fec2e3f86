//! Names in order.

use vstd::prelude::*;
use vstd::string::*;

use crate::desktop_queue::order;
use crate::text;

verus! {

/// The place of `x` among names in order: after those that are not above it.
pub open spec fn place_for(s: Seq<Seq<char>>, x: Seq<char>) -> int
    decreases s.len(),
{
    if s.len() == 0 || order::name_lt(x, s[0]) {
        0
    } else {
        1 + place_for(s.skip(1), x)
    }
}

/// The names of `s` in ascending order.
pub open spec fn ordered(s: Seq<Seq<char>>) -> Seq<Seq<char>>
    decreases s.len(),
{
    if s.len() == 0 {
        s
    } else {
        let front = ordered(s.drop_last());
        front.insert(place_for(front, s.last()), s.last())
    }
}

pub open spec fn ascending(s: Seq<Seq<char>>) -> bool {
    forall|i: int, j: int|
        0 <= i < j < s.len() ==> !order::name_lt(#[trigger] s[j], #[trigger] s[i])
}

proof fn lemma_place_for(s: Seq<Seq<char>>, x: Seq<char>)
    ensures
        0 <= place_for(s, x) <= s.len(),
        forall|i: int| 0 <= i < place_for(s, x) ==> !order::name_lt(x, #[trigger] s[i]),
        place_for(s, x) < s.len() ==> order::name_lt(x, s[place_for(s, x)]),
    decreases s.len(),
{
    if s.len() > 0 && !order::name_lt(x, s[0]) {
        let t = s.skip(1);
        lemma_place_for(t, x);
        assert forall|i: int| 0 <= i < place_for(s, x) implies !order::name_lt(
            x,
            #[trigger] s[i],
        ) by {
            if i > 0 {
                assert(t[i - 1] == s[i]);
            }
        }
        if place_for(s, x) < s.len() {
            assert(t[place_for(t, x)] == s[place_for(s, x)]);
        }
    }
}

/// Ordering keeps the names and puts them in ascending order.
pub proof fn lemma_ordered(s: Seq<Seq<char>>)
    ensures
        ordered(s).len() == s.len(),
        ordered(s).to_multiset() == s.to_multiset(),
        ascending(ordered(s)),
    decreases s.len(),
{
    broadcast use vstd::seq_lib::group_to_multiset_ensures;

    if s.len() > 0 {
        let front = ordered(s.drop_last());
        let x = s.last();
        let k = place_for(front, x);
        lemma_ordered(s.drop_last());
        lemma_place_for(front, x);
        let r = front.insert(k, x);
        assert(r.remove(k) =~= front);
        assert(s.drop_last().push(x) =~= s);
        assert(front.push(x).to_multiset() == front.to_multiset().insert(x));
        assert(r.to_multiset() =~= front.to_multiset().insert(x)) by {
            assert(r.remove(k).to_multiset() == r.to_multiset().remove(r[k]));
            assert(r.contains(x)) by {
                assert(r[k] == x);
            }
        }
        assert forall|i: int, j: int| 0 <= i < j < r.len() implies !order::name_lt(
            #[trigger] r[j],
            #[trigger] r[i],
        ) by {
            if i < k && j == k {
                assert(front[i] == r[i]);
            } else if i == k && j > k {
                assert(front[j - 1] == r[j]);
                if order::name_lt(front[j - 1], x) {
                    // x < front[k] and front[j - 1] < x, so front[j - 1] < front[k]
                    order::lemma_name_lt_transitive(front[j - 1], x, front[k]);
                    if j - 1 > k {
                        assert(!order::name_lt(front[j - 1], front[k]));
                    } else {
                        order::lemma_name_lt_irreflexive(front[k]);
                    }
                }
            } else {
                let a = if i < k {
                    i
                } else {
                    i - 1
                };
                let b = if j < k {
                    j
                } else {
                    j - 1
                };
                assert(front[a] == r[i]);
                assert(front[b] == r[j]);
            }
        }
    }
}

/// The names in order are the names.
pub proof fn lemma_ordered_keeps(s: Seq<Seq<char>>, x: Seq<char>)
    ensures
        ordered(s).contains(x) == s.contains(x),
{
    broadcast use vstd::seq_lib::group_to_multiset_ensures;

    lemma_ordered(s);
    assert(ordered(s).contains(x) == (ordered(s).to_multiset().count(x) > 0));
    assert(s.contains(x) == (s.to_multiset().count(x) > 0));
}

fn find_place(names: &Vec<String>, x: &str) -> (k: usize)
    ensures
        k == place_for(text::views(names@), x@),
        k <= names@.len(),
{
    let ghost s = text::views(names@);
    let mut k: usize = 0;
    assert(s.skip(0) =~= s);
    while k < names.len() && !order::name_less(x, names[k].as_str())
        invariant
            k <= names@.len() == s.len(),
            s == text::views(names@),
            place_for(s, x@) == k + place_for(s.skip(k as int), x@),
        decreases names@.len() - k,
    {
        assert(s.skip(k as int)[0] == s[k as int]);
        assert(s.skip(k as int).skip(1) =~= s.skip(k as int + 1));
        k += 1;
    }
    assert(k < names@.len() ==> s.skip(k as int)[0] == s[k as int]);
    k
}

/// The names in ascending order.
pub fn sort_names(names: &Vec<String>) -> (r: Vec<String>)
    ensures
        text::views(r@) == ordered(text::views(names@)),
{
    let ghost s = text::views(names@);
    let mut out: Vec<String> = Vec::new();
    let mut i: usize = 0;
    assert(text::views(out@) =~= ordered(s.take(0)));
    while i < names.len()
        invariant
            i <= names@.len() == s.len(),
            s == text::views(names@),
            text::views(out@) == ordered(s.take(i as int)),
        decreases names@.len() - i,
    {
        let k: usize = find_place(&out, names[i].as_str());
        let ghost before = out@;
        out.insert(k, names[i].clone());
        assert(text::views(out@) =~= text::views(before).insert(k as int, s[i as int]));
        assert(s.take(i as int + 1).drop_last() =~= s.take(i as int));
        assert(s.take(i as int + 1).last() == s[i as int]);
        i += 1;
    }
    assert(s.take(s.len() as int) =~= s);
    out
}

} // verus!
