use vstd::prelude::*;

use crate::strutil::string_eq;

verus! {

/// Looks `k` up in an association list, front to back; the first pair whose
/// key has the characters `k` wins.
pub open spec fn assoc_get<V>(s: Seq<(String, V)>, k: Seq<char>) -> Option<V>
    decreases s.len(),
{
    if s.len() == 0 {
        None
    } else if s[0].0@ == k {
        Some(s[0].1)
    } else {
        assoc_get(s.drop_first(), k)
    }
}

/// Whether some pair of `s` has a key with the characters `k`.
pub open spec fn assoc_contains<V>(s: Seq<(String, V)>, k: Seq<char>) -> bool {
    exists|i: int| 0 <= i < s.len() && s[i].0@ == k
}

/// `s` with every pair whose key has the characters `k` dropped.
pub open spec fn assoc_drop<V>(s: Seq<(String, V)>, k: Seq<char>) -> Seq<(String, V)>
    decreases s.len(),
{
    if s.len() == 0 {
        Seq::empty()
    } else if s[0].0@ == k {
        assoc_drop(s.drop_first(), k)
    } else {
        seq![s[0]] + assoc_drop(s.drop_first(), k)
    }
}

pub proof fn lemma_assoc_get_at<V>(s: Seq<(String, V)>, k: Seq<char>, i: int)
    requires
        0 <= i < s.len(),
        s[i].0@ == k,
        forall|j: int| 0 <= j < i ==> s[j].0@ != k,
    ensures
        assoc_get(s, k) == Some(s[i].1),
    decreases i,
{
    if i > 0 {
        lemma_assoc_get_at(s.drop_first(), k, i - 1);
    }
}

pub proof fn lemma_assoc_get_none<V>(s: Seq<(String, V)>, k: Seq<char>)
    requires
        forall|j: int| 0 <= j < s.len() ==> s[j].0@ != k,
    ensures
        assoc_get(s, k) is None,
    decreases s.len(),
{
    if s.len() > 0 {
        lemma_assoc_get_none(s.drop_first(), k);
    }
}

pub proof fn lemma_assoc_get_some_iff<V>(s: Seq<(String, V)>, k: Seq<char>)
    ensures
        assoc_get(s, k) is Some <==> assoc_contains(s, k),
    decreases s.len(),
{
    if s.len() > 0 {
        lemma_assoc_get_some_iff(s.drop_first(), k);
        if assoc_contains(s.drop_first(), k) {
            let i = choose|i: int| 0 <= i < s.drop_first().len() && s.drop_first()[i].0@ == k;
            assert(s[i + 1].0@ == k);
        }
        if assoc_contains(s, k) && s[0].0@ != k {
            let i = choose|i: int| 0 <= i < s.len() && s[i].0@ == k;
            assert(s.drop_first()[i - 1].0@ == k);
        }
    }
}

/// Dropping key `k` leaves lookups of every other key unchanged, and `k`
/// itself absent.
pub proof fn lemma_assoc_drop_get<V>(s: Seq<(String, V)>, k: Seq<char>, k2: Seq<char>)
    ensures
        k2 == k ==> assoc_get(assoc_drop(s, k), k2) is None,
        k2 != k ==> assoc_get(assoc_drop(s, k), k2) == assoc_get(s, k2),
    decreases s.len(),
{
    if s.len() > 0 {
        lemma_assoc_drop_get(s.drop_first(), k, k2);
        if s[0].0@ != k {
            let rest = assoc_drop(s.drop_first(), k);
            assert((seq![s[0]] + rest).drop_first() =~= rest);
        }
    }
}

/// Pushing a pair with key `k` does not change lookups of other keys.
pub proof fn lemma_assoc_get_push_other<V>(s: Seq<(String, V)>, p: (String, V), k2: Seq<char>)
    requires
        p.0@ != k2,
    ensures
        assoc_get(s.push(p), k2) == assoc_get(s, k2),
    decreases s.len(),
{
    if s.len() == 0 {
        let t = s.push(p);
        assert(t[0] == p);
        assert(t.drop_first().len() == 0);
        assert(assoc_get(t.drop_first(), k2) is None);
    } else {
        assert(s.push(p)[0] == s[0]);
        assert(s.push(p).drop_first() =~= s.drop_first().push(p));
        lemma_assoc_get_push_other(s.drop_first(), p, k2);
    }
}

/// Binding `k` to `v` in an association list: every earlier binding of `k`
/// dropped, the new pair at the end.
pub open spec fn assoc_set<V>(s: Seq<(String, V)>, k: String, v: V) -> Seq<(String, V)> {
    assoc_drop(s, k@).push((k, v))
}

/// A lookup that defaults to zero for absent keys: the shape every
/// numeric-map condition reads player state through.
pub open spec fn lookup_or_zero(s: Seq<(String, u64)>, k: Seq<char>) -> u64 {
    match assoc_get(s, k) {
        Option::Some(v) => v,
        Option::None => 0,
    }
}

/// A mapping keyed by strings, backed by a list of pairs with pairwise
/// distinct keys. Lookup goes by the key's characters.
#[derive(Clone)]
pub struct StrMap<V> {
    pairs: Vec<(String, V)>,
}

impl<V> StrMap<V> {
    /// The backing pairs, in iteration order.
    pub closed spec fn entries(&self) -> Seq<(String, V)> {
        self.pairs@
    }

    /// Keys are pairwise distinct.
    pub open spec fn wf(&self) -> bool {
        forall|i: int, j: int|
            0 <= i < j < self.entries().len() ==> self.entries()[i].0@ != self.entries()[j].0@
    }

    pub open spec fn contains_key(&self, k: Seq<char>) -> bool {
        assoc_contains(self.entries(), k)
    }

    pub open spec fn get_of(&self, k: Seq<char>) -> Option<V> {
        assoc_get(self.entries(), k)
    }

    pub fn new() -> (r: StrMap<V>)
        ensures
            r.entries() == Seq::<(String, V)>::empty(),
            r.wf(),
    {
        StrMap { pairs: Vec::new() }
    }

    pub fn len(&self) -> (n: usize)
        ensures
            n == self.entries().len(),
    {
        self.pairs.len()
    }

    pub fn is_empty(&self) -> (r: bool)
        ensures
            r == (self.entries().len() == 0),
    {
        self.pairs.len() == 0
    }

    /// The pair at position `i` of the iteration order.
    pub fn pair_at(&self, i: usize) -> (r: &(String, V))
        requires
            i < self.entries().len(),
        ensures
            *r == self.entries()[i as int],
    {
        &self.pairs[i]
    }

    pub fn get(&self, k: &String) -> (r: Option<&V>)
        ensures
            match r {
                Option::Some(v) => self.get_of(k@) == Some(*v) && self.contains_key(k@),
                Option::None => !self.contains_key(k@) && self.get_of(k@) is None,
            },
    {
        proof {
            lemma_assoc_get_some_iff(self.entries(), k@);
        }
        let mut i: usize = 0;
        while i < self.pairs.len()
            invariant
                i <= self.pairs@.len(),
                forall|j: int| 0 <= j < i ==> self.pairs@[j].0@ != k@,
            decreases self.pairs@.len() - i,
        {
            if string_eq(&self.pairs[i].0, k) {
                proof {
                    lemma_assoc_get_at(self.pairs@, k@, i as int);
                }
                return Some(&self.pairs[i].1);
            }
            i = i + 1;
        }
        proof {
            lemma_assoc_get_none::<V>(self.pairs@, k@);
        }
        None
    }

    pub fn contains(&self, k: &String) -> (r: bool)
        ensures
            r == self.contains_key(k@),
    {
        match self.get(k) {
            Option::Some(_) => true,
            Option::None => false,
        }
    }

    /// Binds `k` to `v`, replacing any earlier binding. When `k` is new the
    /// pair goes to the end of the iteration order.
    pub fn set(&mut self, k: &String, v: V)
        requires
            old(self).wf(),
        ensures
            final(self).wf(),
            final(self).get_of(k@) == Some(v),
            final(self).contains_key(k@),
            forall|k2: Seq<char>| k2 != k@ ==> final(self).get_of(k2) == old(self).get_of(k2),
            forall|k2: Seq<char>| k2 != k@ ==> (final(self).contains_key(k2) == old(
                self,
            ).contains_key(k2)),
            final(self).entries() == assoc_set(old(self).entries(), *k, v),
            !old(self).contains_key(k@) ==> final(self).entries() == old(self).entries().push(
                (*k, v),
            ),
    {
        let ghost orig = self.pairs@;
        let mut out: Vec<(String, V)> = Vec::new();
        while self.pairs.len() > 0
            invariant
                assoc_drop(orig, k@) == out@ + assoc_drop(self.pairs@, k@),
                forall|j: int| 0 <= j < out@.len() ==> out@[j].0@ != k@,
                forall|i: int, j: int| 0 <= i < j < out@.len() ==> out@[i].0@ != out@[j].0@,
                forall|i: int, j: int|
                    0 <= i < out@.len() && 0 <= j < self.pairs@.len() ==> out@[i].0@
                        != self.pairs@[j].0@,
                forall|i: int, j: int|
                    0 <= i < j < self.pairs@.len() ==> self.pairs@[i].0@ != self.pairs@[j].0@,
                assoc_contains(orig, k@) || orig =~= out@ + self.pairs@,
            decreases self.pairs@.len(),
        {
            let ghost before = self.pairs@;
            let pair = self.pairs.remove(0);
            proof {
                assert(self.pairs@ =~= before.drop_first());
            }
            if string_eq(&pair.0, k) {
                proof {
                    if !assoc_contains(orig, k@) {
                        assert(orig[out@.len() as int].0@ == k@);
                        assert(false);
                    }
                }
            } else {
                let ghost out_before = out@;
                out.push(pair);
                proof {
                    assert(out@ + assoc_drop(self.pairs@, k@) =~= out_before + (seq![before[0]]
                        + assoc_drop(before.drop_first(), k@)));
                    if !assoc_contains(orig, k@) {
                        assert(orig =~= out@ + self.pairs@);
                    }
                }
            }
        }
        let ghost dropped_all = out@;
        out.push((k.clone(), v));
        self.pairs = out;
        proof {
            let fin = self.pairs@;
            let dropped = assoc_drop(orig, k@);
            assert(dropped =~= dropped_all);
            assert(fin =~= dropped.push((*k, v)));
            lemma_assoc_get_at(fin, k@, fin.len() - 1);
            assert forall|k2: Seq<char>| k2 != k@ implies assoc_get(fin, k2) == assoc_get(
                orig,
                k2,
            ) by {
                lemma_assoc_get_push_other(dropped, (*k, v), k2);
                lemma_assoc_drop_get(orig, k@, k2);
            }
            assert forall|k2: Seq<char>| k2 != k@ implies (assoc_contains(fin, k2)
                == assoc_contains(orig, k2)) by {
                lemma_assoc_get_some_iff(fin, k2);
                lemma_assoc_get_some_iff(orig, k2);
            }
            lemma_assoc_get_some_iff(fin, k@);
            if !assoc_contains(orig, k@) {
                lemma_assoc_drop_keeps_all(orig, k@);
                assert(fin =~= orig.push((*k, v)));
            }
        }
    }

    /// Unbinds `k`; other bindings and their order are untouched.
    pub fn remove_key(&mut self, k: &String)
        requires
            old(self).wf(),
        ensures
            final(self).wf(),
            final(self).get_of(k@) is None,
            !final(self).contains_key(k@),
            forall|k2: Seq<char>| k2 != k@ ==> final(self).get_of(k2) == old(self).get_of(k2),
            forall|k2: Seq<char>| k2 != k@ ==> (final(self).contains_key(k2) == old(
                self,
            ).contains_key(k2)),
            final(self).entries() == assoc_drop(old(self).entries(), k@),
    {
        let ghost orig = self.pairs@;
        let mut out: Vec<(String, V)> = Vec::new();
        while self.pairs.len() > 0
            invariant
                assoc_drop(orig, k@) == out@ + assoc_drop(self.pairs@, k@),
                forall|j: int| 0 <= j < out@.len() ==> out@[j].0@ != k@,
                forall|i: int, j: int| 0 <= i < j < out@.len() ==> out@[i].0@ != out@[j].0@,
                forall|i: int, j: int|
                    0 <= i < out@.len() && 0 <= j < self.pairs@.len() ==> out@[i].0@
                        != self.pairs@[j].0@,
                forall|i: int, j: int|
                    0 <= i < j < self.pairs@.len() ==> self.pairs@[i].0@ != self.pairs@[j].0@,
            decreases self.pairs@.len(),
        {
            let ghost before = self.pairs@;
            let pair = self.pairs.remove(0);
            proof {
                assert(self.pairs@ =~= before.drop_first());
            }
            if string_eq(&pair.0, k) {
                // an earlier binding of k: dropped
            } else {
                let ghost out_before = out@;
                out.push(pair);
                proof {
                    assert(out@ + assoc_drop(self.pairs@, k@) =~= out_before + (seq![before[0]]
                        + assoc_drop(before.drop_first(), k@)));
                }
            }
        }
        self.pairs = out;
        proof {
            let fin = self.pairs@;
            assert(fin =~= assoc_drop(orig, k@));
            lemma_assoc_get_none::<V>(fin, k@);
            lemma_assoc_get_some_iff(fin, k@);
            assert forall|k2: Seq<char>| k2 != k@ implies assoc_get(fin, k2) == assoc_get(
                orig,
                k2,
            ) by {
                lemma_assoc_drop_get(orig, k@, k2);
            }
            assert forall|k2: Seq<char>| k2 != k@ implies (assoc_contains(fin, k2)
                == assoc_contains(orig, k2)) by {
                lemma_assoc_get_some_iff(fin, k2);
                lemma_assoc_get_some_iff(orig, k2);
            }
        }
    }
}

/// Dropping a key that no pair has keeps the list as it is.
pub proof fn lemma_assoc_drop_keeps_all<V>(s: Seq<(String, V)>, k: Seq<char>)
    requires
        !assoc_contains(s, k),
    ensures
        assoc_drop(s, k) == s,
    decreases s.len(),
{
    if s.len() > 0 {
        assert(s[0].0@ != k);
        assert forall|i: int| 0 <= i < s.drop_first().len() implies s.drop_first()[i].0@ != k by {
            assert(s.drop_first()[i] == s[i + 1]);
        }
        lemma_assoc_drop_keeps_all(s.drop_first(), k);
        assert(seq![s[0]] + s.drop_first() =~= s);
    }
}

} // verus!
