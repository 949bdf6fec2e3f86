//! Lists of rows, and tables: lists of rows under a text key.

use vstd::prelude::*;
use vstd::string::*;

use crate::text;

verus! {

/// Rows in the order in which they were put in.
pub struct List<T> {
    pub rows: Vec<T>,
}

/// A list of rows under a key.
pub type Table<V> = List<(String, V)>;

impl<T: View> View for List<T> {
    type V = Seq<T::V>;

    open spec fn view(&self) -> Self::V {
        self.rows@.map_values(|row: T| row@)
    }
}

/// The first row that `p` holds of.
pub open spec fn first<W>(s: Seq<W>, p: spec_fn(W) -> bool) -> Option<W>
    decreases s.len(),
{
    if s.len() == 0 {
        None
    } else if p(s[0]) {
        Some(s[0])
    } else {
        first(s.skip(1), p)
    }
}

/// The place of the first row that `p` holds of; the length where there is none.
pub open spec fn place<W>(s: Seq<W>, p: spec_fn(W) -> bool) -> int
    decreases s.len(),
{
    if s.len() == 0 || p(s[0]) {
        0
    } else {
        1 + place(s.skip(1), p)
    }
}

pub open spec fn some<W>(s: Seq<W>, p: spec_fn(W) -> bool) -> bool {
    first(s, p) is Some
}

pub open spec fn keyed<W>(k: Seq<char>) -> spec_fn((Seq<char>, W)) -> bool {
    |row: (Seq<char>, W)| row.0 == k
}

pub open spec fn unkeyed<W>(k: Seq<char>) -> spec_fn((Seq<char>, W)) -> bool {
    |row: (Seq<char>, W)| row.0 != k
}

pub open spec fn lookup<W>(t: Seq<(Seq<char>, W)>, k: Seq<char>) -> Option<W> {
    match first(t, keyed(k)) {
        Some(row) => Some(row.1),
        None => None,
    }
}

pub open spec fn present<W>(t: Seq<(Seq<char>, W)>, k: Seq<char>) -> bool {
    first(t, keyed(k)) is Some
}

pub open spec fn without<W>(t: Seq<(Seq<char>, W)>, k: Seq<char>) -> Seq<(Seq<char>, W)> {
    t.filter(unkeyed(k))
}

pub open spec fn with<W>(t: Seq<(Seq<char>, W)>, k: Seq<char>, v: W) -> Seq<(Seq<char>, W)> {
    without(t, k).push((k, v))
}

pub open spec fn keys_of<W>(t: Seq<(Seq<char>, W)>) -> Seq<Seq<char>> {
    t.map_values(|row: (Seq<char>, W)| row.0)
}

pub proof fn lemma_filter_step<W>(s: Seq<W>, n: int, p: spec_fn(W) -> bool)
    requires
        0 <= n < s.len(),
    ensures
        s.take(n + 1).filter(p) == if p(s[n]) {
            s.take(n).filter(p).push(s[n])
        } else {
            s.take(n).filter(p)
        },
{
    assert(s.take(n + 1).drop_last() =~= s.take(n));
    assert(s.take(n + 1).last() == s[n]);
    reveal(Seq::filter);
}

pub proof fn lemma_filter_empty<W>(p: spec_fn(W) -> bool)
    ensures
        Seq::<W>::empty().filter(p) == Seq::<W>::empty(),
{
    reveal(Seq::filter);
}

/// A filter that holds of every row changes nothing.
pub proof fn lemma_filter_all<W>(s: Seq<W>, p: spec_fn(W) -> bool)
    requires
        forall|i: int| 0 <= i < s.len() ==> p(#[trigger] s[i]),
    ensures
        s.filter(p) == s,
    decreases s.len(),
{
    reveal(Seq::filter);
    if s.len() > 0 {
        lemma_filter_all(s.drop_last(), p);
        assert(s.drop_last().push(s.last()) =~= s);
    }
}

/// A filter makes nothing longer, and shorter where a row fails it.
pub proof fn lemma_filter_len<W>(s: Seq<W>, p: spec_fn(W) -> bool)
    ensures
        s.filter(p).len() <= s.len(),
        (exists|i: int| 0 <= i < s.len() && !p(#[trigger] s[i])) ==> s.filter(p).len() < s.len(),
    decreases s.len(),
{
    reveal(Seq::filter);
    if s.len() > 0 {
        lemma_filter_len(s.drop_last(), p);
        if exists|i: int| 0 <= i < s.len() && !p(#[trigger] s[i]) {
            let i = choose|i: int| 0 <= i < s.len() && !p(#[trigger] s[i]);
            if i < s.len() - 1 {
                assert(s.drop_last()[i] == s[i]);
            }
        }
    }
}

/// Nothing is found exactly where `p` holds of no row; what is found is a row,
/// and `p` holds of it.
pub proof fn lemma_first<W>(s: Seq<W>, p: spec_fn(W) -> bool)
    ensures
        first(s, p) is None <==> forall|i: int| 0 <= i < s.len() ==> !p(#[trigger] s[i]),
        first(s, p) matches Some(w) ==> p(w) && 0 <= place(s, p) < s.len() && s[place(s, p)] == w,
        first(s, p) is None ==> place(s, p) == s.len(),
    decreases s.len(),
{
    if s.len() > 0 {
        lemma_first(s.skip(1), p);
        if first(s, p) is None {
            assert forall|i: int| 0 <= i < s.len() implies !p(#[trigger] s[i]) by {
                if i > 0 {
                    assert(s[i] == s.skip(1)[i - 1]);
                }
            }
        } else if forall|i: int| 0 <= i < s.len() ==> !p(#[trigger] s[i]) {
            assert forall|i: int| 0 <= i < s.skip(1).len() implies !p(#[trigger] s.skip(1)[i]) by {
                assert(s.skip(1)[i] == s[i + 1]);
            }
        }
        if !p(s[0]) && first(s, p) is Some {
            assert(s.skip(1)[place(s.skip(1), p)] == s[place(s, p)]);
        }
    }
}

impl<T: View> List<T> {
    pub fn new() -> (r: Self)
        ensures
            r@ == Seq::<T::V>::empty(),
    {
        let r = List { rows: Vec::new() };
        assert(r@ =~= Seq::<T::V>::empty());
        r
    }

    pub fn len(&self) -> (n: usize)
        ensures
            n == self@.len(),
    {
        self.rows.len()
    }

    pub fn is_empty(&self) -> (r: bool)
        ensures
            r == (self@.len() == 0),
    {
        self.rows.len() == 0
    }

    pub fn at(&self, i: usize) -> (row: &T)
        requires
            i < self@.len(),
        ensures
            row@ == self@[i as int],
    {
        &self.rows[i]
    }

    pub fn push(&mut self, row: T)
        ensures
            final(self)@ == old(self)@.push(row@),
    {
        self.rows.push(row);
        assert(self@ =~= old(self)@.push(row@));
    }

    pub fn remove_at(&mut self, i: usize) -> (row: T)
        requires
            i < old(self)@.len(),
        ensures
            row@ == old(self)@[i as int],
            final(self)@ == old(self)@.remove(i as int),
    {
        let row = self.rows.remove(i);
        assert(self@ =~= old(self)@.remove(i as int));
        row
    }

    pub fn insert_at(&mut self, i: usize, row: T)
        requires
            i <= old(self)@.len(),
        ensures
            final(self)@ == old(self)@.insert(i as int, row@),
    {
        self.rows.insert(i, row);
        assert(self@ =~= old(self)@.insert(i as int, row@));
    }

    /// Takes all rows out.
    pub fn take_all(&mut self) -> (r: Self)
        ensures
            r@ == old(self)@,
            final(self)@ == Seq::<T::V>::empty(),
    {
        let mut rows: Vec<T> = Vec::new();
        std::mem::swap(&mut rows, &mut self.rows);
        assert(self@ =~= Seq::<T::V>::empty());
        List { rows }
    }

    /// The place of the first row that `f` holds of.
    pub(crate) fn find_by<F: Fn(&T) -> bool>(
        &self,
        f: F,
        Ghost(p): Ghost<spec_fn(T::V) -> bool>,
    ) -> (r: Option<usize>)
        requires
            forall|row: &T| #[trigger] f.requires((row,)),
            forall|row: &T, b: bool| #[trigger] f.ensures((row,), b) ==> b == p(row@),
        ensures
            match r {
                Some(i) => i < self@.len() && p(self@[i as int]) && first(self@, p) == Some(
                    self@[i as int],
                ) && i == place(self@, p),
                None => first(self@, p) is None,
            },
    {
        let mut i: usize = 0;
        assert(self@.skip(0) =~= self@);
        while i < self.rows.len()
            invariant
                i <= self.rows@.len() == self@.len(),
                first(self@, p) == first(self@.skip(i as int), p),
                place(self@, p) == i + place(self@.skip(i as int), p),
                forall|row: &T| #[trigger] f.requires((row,)),
                forall|row: &T, b: bool| #[trigger] f.ensures((row,), b) ==> b == p(row@),
            decreases self.rows@.len() - i,
        {
            let hit = f(&self.rows[i]);
            assert(self@.skip(i as int)[0] == self@[i as int]);
            assert(hit == p(self@[i as int]));
            if hit {
                return Some(i);
            }
            assert(self@.skip(i as int).skip(1) =~= self@.skip(i as int + 1));
            i += 1;
        }
        None
    }

    pub(crate) fn some_by<F: Fn(&T) -> bool>(
        &self,
        f: F,
        Ghost(p): Ghost<spec_fn(T::V) -> bool>,
    ) -> (r: bool)
        requires
            forall|row: &T| #[trigger] f.requires((row,)),
            forall|row: &T, b: bool| #[trigger] f.ensures((row,), b) ==> b == p(row@),
        ensures
            r == some(self@, p),
    {
        self.find_by(f, Ghost(p)).is_some()
    }

    /// Keeps the rows that `f` holds of.
    pub(crate) fn retain_by<F: Fn(&T) -> bool>(
        &mut self,
        f: F,
        Ghost(p): Ghost<spec_fn(T::V) -> bool>,
    )
        requires
            forall|row: &T| #[trigger] f.requires((row,)),
            forall|row: &T, b: bool| #[trigger] f.ensures((row,), b) ==> b == p(row@),
        ensures
            final(self)@ == old(self)@.filter(p),
    {
        let mut rest = self.take_all().rows;
        let ghost all = old(self)@;
        let ghost raw = rest@;
        let total: usize = rest.len();
        let mut n: usize = 0;
        proof {
            lemma_filter_empty(p);
            assert(all.take(0) =~= Seq::<T::V>::empty());
        }
        while n < total
            invariant
                n <= total == raw.len(),
                rest@ == raw.skip(n as int),
                all == raw.map_values(|row: T| row@),
                self@ == all.take(n as int).filter(p),
                forall|row: &T| #[trigger] f.requires((row,)),
                forall|row: &T, b: bool| #[trigger] f.ensures((row,), b) ==> b == p(row@),
            decreases total - n,
        {
            let row = rest.remove(0);
            proof {
                assert(row == raw[n as int]);
                assert(rest@ =~= raw.skip(n as int + 1));
                lemma_filter_step(all, n as int, p);
            }
            let keep = f(&row);
            assert(keep == p(all[n as int]));
            if keep {
                self.push(row);
            }
            n += 1;
        }
        assert(all.take(total as int) =~= all);
    }
}

impl<V: View> List<(String, V)> {
    pub fn index_of(&self, k: &str) -> (r: Option<usize>)
        ensures
            match r {
                Some(i) => i < self@.len() && self@[i as int].0 == k@ && lookup(self@, k@) == Some(
                    self@[i as int].1,
                ) && i == place(self@, keyed(k@)),
                None => lookup(self@, k@) is None && !present(self@, k@),
            },
            r is Some == present(self@, k@),
    {
        let named = |row: &(String, V)| -> (b: bool)
            ensures
                b == (row.0@ == k@),
        {
            text::str_eq(row.0.as_str(), k)
        };
        self.find_by(named, Ghost(keyed(k@)))
    }

    pub fn contains(&self, k: &str) -> (r: bool)
        ensures
            r == present(self@, k@),
    {
        self.index_of(k).is_some()
    }

    pub fn get(&self, k: &str) -> (r: Option<&V>)
        ensures
            match r {
                Some(v) => lookup(self@, k@) == Some(v@),
                None => lookup(self@, k@) is None,
            },
            r is Some == present(self@, k@),
    {
        match self.index_of(k) {
            Some(i) => Some(&self.rows[i].1),
            None => None,
        }
    }

    /// Puts a value in place of those under the same key.
    pub fn insert(&mut self, k: String, v: V)
        ensures
            final(self)@ == with(old(self)@, k@, v@),
    {
        self.discard(k.as_str());
        self.push((k, v));
    }

    /// Drops what stands under a key.
    pub fn discard(&mut self, k: &str)
        ensures
            final(self)@ == without(old(self)@, k@),
    {
        let other = |row: &(String, V)| -> (b: bool)
            ensures
                b == (row.0@ != k@),
        {
            !text::str_eq(row.0.as_str(), k)
        };
        self.retain_by(other, Ghost(unkeyed(k@)));
    }

    /// Takes the first value under a key out and drops the others.
    pub fn remove(&mut self, k: &str) -> (r: Option<V>)
        ensures
            final(self)@ == without(old(self)@, k@),
            match r {
                Some(v) => lookup(old(self)@, k@) == Some(v@),
                None => lookup(old(self)@, k@) is None,
            },
            r is Some == present(old(self)@, k@),
    {
        match self.index_of(k) {
            Some(i) => {
                let ghost before = self@;
                let row = self.remove_at(i);
                proof {
                    lemma_without_removed(before, i as int);
                }
                self.discard(k);
                Some(row.1)
            },
            None => {
                proof {
                    lemma_without_absent(self@, k@);
                }
                None
            },
        }
    }

    /// The keys of all rows.
    pub fn keys(&self) -> (r: Vec<String>)
        ensures
            text::views(r@) == keys_of(self@),
    {
        let mut out: Vec<String> = Vec::new();
        let mut i: usize = 0;
        while i < self.rows.len()
            invariant
                i <= self.rows@.len() == self@.len(),
                out@.len() == i,
                forall|k: int| 0 <= k < i ==> (#[trigger] out@[k])@ == self@[k].0,
            decreases self.rows@.len() - i,
        {
            out.push(self.rows[i].0.clone());
            i += 1;
        }
        assert(text::views(out@) =~= keys_of(self@));
        out
    }

    /// The keys of the rows that `f` holds of.
    pub(crate) fn keys_by<F: Fn(&(String, V)) -> bool>(
        &self,
        f: F,
        Ghost(p): Ghost<spec_fn((Seq<char>, V::V)) -> bool>,
    ) -> (r: Vec<String>)
        requires
            forall|row: &(String, V)| #[trigger] f.requires((row,)),
            forall|row: &(String, V), b: bool| #[trigger]
                f.ensures((row,), b) ==> b == p(row@),
        ensures
            text::views(r@) == keys_of(self@.filter(p)),
    {
        let mut out: Vec<String> = Vec::new();
        let ghost all = self@;
        let mut i: usize = 0;
        proof {
            lemma_filter_empty(p);
            assert(all.take(0) =~= Seq::<(Seq<char>, V::V)>::empty());
            assert(text::views(out@) =~= keys_of(all.take(0).filter(p)));
        }
        while i < self.rows.len()
            invariant
                i <= self.rows@.len() == all.len(),
                all == self@,
                text::views(out@) == keys_of(all.take(i as int).filter(p)),
                forall|row: &(String, V)| #[trigger] f.requires((row,)),
                forall|row: &(String, V), b: bool| #[trigger]
                    f.ensures((row,), b) ==> b == p(row@),
            decreases self.rows@.len() - i,
        {
            let hit = f(&self.rows[i]);
            proof {
                lemma_filter_step(all, i as int, p);
                assert(hit == p(all[i as int]));
            }
            if hit {
                let ghost before = out@;
                out.push(self.rows[i].0.clone());
                assert(text::views(out@) =~= text::views(before).push(all[i as int].0));
                assert(keys_of(all.take(i as int + 1).filter(p)) =~= keys_of(
                    all.take(i as int).filter(p),
                ).push(all[i as int].0));
            }
            i += 1;
        }
        assert(all.take(all.len() as int) =~= all);
        out
    }
}

/// To drop a key that is not there changes nothing.
pub proof fn lemma_without_absent<W>(t: Seq<(Seq<char>, W)>, k: Seq<char>)
    requires
        !present(t, k),
    ensures
        without(t, k) == t,
{
    lemma_first(t, keyed(k));
    assert forall|i: int| 0 <= i < t.len() implies unkeyed(k)(#[trigger] t[i]) by {
        assert(!keyed::<W>(k)(t[i]));
    }
    lemma_filter_all(t, unkeyed(k));
}

/// A row that was taken out of its place is dropped with its key.
pub proof fn lemma_without_removed<W>(t: Seq<(Seq<char>, W)>, i: int)
    requires
        0 <= i < t.len(),
    ensures
        without(t.remove(i), t[i].0) == without(t, t[i].0),
{
    let p = unkeyed::<W>(t[i].0);
    assert(t =~= t.take(i) + seq![t[i]] + t.skip(i + 1));
    assert(t.remove(i) =~= t.take(i) + t.skip(i + 1));
    Seq::filter_distributes_over_add(t.take(i) + seq![t[i]], t.skip(i + 1), p);
    Seq::filter_distributes_over_add(t.take(i), seq![t[i]], p);
    Seq::filter_distributes_over_add(t.take(i), t.skip(i + 1), p);
    assert(seq![t[i]].filter(p) =~= Seq::<(Seq<char>, W)>::empty()) by {
        reveal_with_fuel(Seq::filter, 2);
        assert(seq![t[i]].drop_last() =~= Seq::<(Seq<char>, W)>::empty());
    }
    assert(t.take(i).filter(p) + Seq::<(Seq<char>, W)>::empty() =~= t.take(i).filter(p));
}

/// To drop a key twice is to drop it once.
pub proof fn lemma_without_twice<W>(t: Seq<(Seq<char>, W)>, k: Seq<char>)
    ensures
        without(without(t, k), k) == without(t, k),
{
    lemma_filtered_holds(t, unkeyed(k));
    lemma_filter_all(without(t, k), unkeyed(k));
}

/// What a filter leaves passes it.
pub proof fn lemma_filtered_holds<W>(s: Seq<W>, p: spec_fn(W) -> bool)
    ensures
        forall|i: int| 0 <= i < s.filter(p).len() ==> p(#[trigger] s.filter(p)[i]),
    decreases s.len(),
{
    reveal(Seq::filter);
    if s.len() > 0 {
        lemma_filtered_holds(s.drop_last(), p);
    }
}

/// A key that is listed is found.
pub proof fn lemma_key_present<W>(t: Seq<(Seq<char>, W)>, k: Seq<char>)
    ensures
        keys_of(t).contains(k) == present(t, k),
{
    lemma_first(t, keyed::<W>(k));
    if keys_of(t).contains(k) {
        let i = keys_of(t).index_of(k);
        assert(keys_of(t)[i] == t[i].0);
        assert(keyed::<W>(k)(t[i]));
    } else if present(t, k) {
        let i = place(t, keyed::<W>(k));
        assert(keys_of(t)[i] == t[i].0);
    }
}

/// What holds of every row holds of every row that a filter leaves.
pub proof fn lemma_filter_keeps<W>(s: Seq<W>, p: spec_fn(W) -> bool, q: spec_fn(W) -> bool)
    requires
        forall|i: int| 0 <= i < s.len() ==> q(#[trigger] s[i]),
    ensures
        forall|i: int| 0 <= i < s.filter(p).len() ==> q(#[trigger] s.filter(p)[i]),
    decreases s.len(),
{
    reveal(Seq::filter);
    if s.len() > 0 {
        assert forall|i: int| 0 <= i < s.drop_last().len() implies q(
            #[trigger] s.drop_last()[i],
        ) by {
            assert(s.drop_last()[i] == s[i]);
        }
        lemma_filter_keeps(s.drop_last(), p, q);
        let front = s.drop_last().filter(p);
        assert forall|i: int| 0 <= i < s.filter(p).len() implies q(#[trigger] s.filter(p)[i]) by {
            if i < front.len() {
                assert(s.filter(p)[i] == front[i]);
            } else {
                assert(s.filter(p)[i] == s[s.len() - 1]);
            }
        }
    }
}

/// The first hit of a longer sequence.
pub proof fn lemma_first_pushed<W>(s: Seq<W>, w: W, p: spec_fn(W) -> bool)
    ensures
        first(s, p) is None && p(w) ==> first(s.push(w), p) == Some(w),
        first(s, p) is None && !p(w) ==> first(s.push(w), p) is None,
        first(s, p) is Some ==> first(s.push(w), p) == first(s, p),
    decreases s.len(),
{
    if s.len() == 0 {
        reveal_with_fuel(first, 2);
        assert(s.push(w).skip(1) =~= Seq::<W>::empty());
    } else {
        assert(s.push(w).skip(1) =~= s.skip(1).push(w));
        lemma_first_pushed(s.skip(1), w, p);
    }
}

/// What is kept under other keys is found as before.
pub proof fn lemma_without_keeps<W>(t: Seq<(Seq<char>, W)>, k: Seq<char>, other: Seq<char>)
    requires
        other != k,
    ensures
        first(without(t, k), keyed(other)) == first(t, keyed(other)),
    decreases t.len(),
{
    reveal(Seq::filter);
    if t.len() > 0 {
        let front = t.drop_last();
        lemma_without_keeps(front, k, other);
        lemma_first_pushed(front, t.last(), keyed(other));
        assert(front.push(t.last()) =~= t);
        if t.last().0 != k {
            lemma_first_pushed(without(front, k), t.last(), keyed(other));
            assert(without(t, k) =~= without(front, k).push(t.last()));
        }
    }
}

/// To put a row under one key changes nothing under the others.
pub proof fn lemma_with_keeps<W>(t: Seq<(Seq<char>, W)>, k: Seq<char>, v: W, other: Seq<char>)
    requires
        other != k,
    ensures
        lookup(with(t, k, v), other) == lookup(t, other),
        present(with(t, k, v), other) == present(t, other),
{
    lemma_without_keeps(t, k, other);
    lemma_first_pushed(without(t, k), (k, v), keyed(other));
}

/// The first row that `p` holds of comes after rows that it does not hold of.
pub proof fn lemma_first_comes_first<W>(s: Seq<W>, p: spec_fn(W) -> bool)
    ensures
        match first(s, p) {
            Some(w) => exists|i: int|
                0 <= i < s.len() && #[trigger] s[i] == w && p(w) && forall|j: int|
                    0 <= j < i ==> !p(#[trigger] s[j]),
            None => forall|i: int| 0 <= i < s.len() ==> !p(#[trigger] s[i]),
        },
    decreases s.len(),
{
    if s.len() > 0 && !p(s[0]) {
        let rest = s.skip(1);
        lemma_first_comes_first(rest, p);
        match first(rest, p) {
            Some(w) => {
                let i = choose|i: int|
                    0 <= i < rest.len() && #[trigger] rest[i] == w && p(w) && forall|j: int|
                        0 <= j < i ==> !p(#[trigger] rest[j]);
                assert(s[i + 1] == w);
                assert forall|j: int| 0 <= j < i + 1 implies !p(#[trigger] s[j]) by {
                    if j > 0 {
                        assert(rest[j - 1] == s[j]);
                    }
                }
            },
            None => {
                assert forall|i: int| 0 <= i < s.len() implies !p(#[trigger] s[i]) by {
                    if i > 0 {
                        assert(rest[i - 1] == s[i]);
                    }
                }
            },
        }
    } else if s.len() > 0 {
        assert(s[0] == first(s, p)->0);
    }
}

/// A filter keeps exactly the rows that it holds of.
pub proof fn lemma_filter_contains<W>(s: Seq<W>, p: spec_fn(W) -> bool, w: W)
    ensures
        s.filter(p).contains(w) <==> s.contains(w) && p(w),
    decreases s.len(),
{
    reveal(Seq::filter);
    if s.len() > 0 {
        let front = s.drop_last();
        lemma_filter_contains(front, p, w);
        assert(s =~= front.push(s.last()));
        if s.contains(w) {
            let i = s.index_of(w);
            if i < front.len() {
                assert(front[i] == w);
            }
        }
        if front.contains(w) {
            assert(s[front.index_of(w)] == w);
        }
        if p(s.last()) {
            let kept = front.filter(p);
            assert(s.filter(p) == kept.push(s.last()));
            assert(kept.push(s.last())[kept.len() as int] == s.last());
            if kept.contains(w) {
                assert(kept.push(s.last())[kept.index_of(w)] == w);
            }
            if kept.push(s.last()).contains(w) {
                let i = kept.push(s.last()).index_of(w);
                if i < kept.len() {
                    assert(kept[i] == w);
                }
            }
        }
        assert(s[s.len() - 1] == s.last());
    }
}

/// What is looked up under a key is the value of the first row of that key; it is
/// found exactly where some row has the key.
pub proof fn lemma_lookup_reads_the_table<W>(t: Seq<(Seq<char>, W)>, k: Seq<char>)
    ensures
        match lookup(t, k) {
            Some(v) => exists|i: int|
                0 <= i < t.len() && #[trigger] t[i] == (k, v) && forall|j: int|
                    0 <= j < i ==> (#[trigger] t[j]).0 != k,
            None => forall|i: int| 0 <= i < t.len() ==> (#[trigger] t[i]).0 != k,
        },
        present(t, k) <==> exists|i: int| 0 <= i < t.len() && (#[trigger] t[i]).0 == k,
{
    lemma_first_comes_first(t, keyed::<W>(k));
    match first(t, keyed::<W>(k)) {
        Some(row) => {
            let i = choose|i: int|
                0 <= i < t.len() && #[trigger] t[i] == row && keyed::<W>(k)(row) && forall|j: int|
                    0 <= j < i ==> !keyed::<W>(k)(#[trigger] t[j]);
            assert(t[i] == (k, row.1));
            assert forall|j: int| 0 <= j < i implies (#[trigger] t[j]).0 != k by {
                assert(!keyed::<W>(k)(t[j]));
            }
        },
        None => {
            assert forall|i: int| 0 <= i < t.len() implies (#[trigger] t[i]).0 != k by {
                assert(!keyed::<W>(k)(t[i]));
            }
        },
    }
}

/// A table from which a key was dropped has the rows of all the other keys. One that
/// a value was put into has that row besides, and finds it.
pub proof fn lemma_tables_change_one_key<W>(
    t: Seq<(Seq<char>, W)>,
    k: Seq<char>,
    v: W,
    row: (Seq<char>, W),
)
    ensures
        without(t, k).contains(row) <==> t.contains(row) && row.0 != k,
        with(t, k, v).contains(row) <==> row == (k, v) || t.contains(row) && row.0 != k,
        lookup(without(t, k), k) is None,
        lookup(with(t, k, v), k) == Some(v),
        row.0 != k ==> lookup(without(t, k), row.0) == lookup(t, row.0),
        row.0 != k ==> lookup(with(t, k, v), row.0) == lookup(t, row.0),
{
    let u = without(t, k);
    lemma_filter_contains(t, unkeyed::<W>(k), row);
    assert(u.push((k, v))[u.len() as int] == (k, v));
    if u.contains(row) {
        assert(u.push((k, v))[u.index_of(row)] == row);
    }
    if u.push((k, v)).contains(row) {
        let i = u.push((k, v)).index_of(row);
        if i < u.len() {
            assert(u[i] == row);
        }
    }
    lemma_filtered_holds(t, unkeyed::<W>(k));
    lemma_first(u, keyed::<W>(k));
    assert forall|i: int| 0 <= i < u.len() implies !keyed::<W>(k)(#[trigger] u[i]) by {
        assert(unkeyed::<W>(k)(u[i]));
    }
    lemma_first_pushed(u, (k, v), keyed::<W>(k));
    if row.0 != k {
        lemma_without_keeps(t, k, row.0);
        lemma_with_keeps(t, k, v, row.0);
    }
}

} // verus!
