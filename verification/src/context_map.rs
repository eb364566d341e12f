//! A small map from action contexts (the host's identifiers of keys and
//! infobar items) to values, in the order the contexts were first stored.
use vstd::prelude::*;

use crate::text::str_eq;

verus! {

/// Whether some entry of `s` has key `k`.
pub open spec fn has_key<V>(s: Seq<(String, V)>, k: Seq<char>) -> bool {
    exists|i: int| 0 <= i < s.len() && #[trigger] s[i].0@ == k
}

/// The value of the entry of `s` with key `k`.
pub open spec fn value_of<V>(s: Seq<(String, V)>, k: Seq<char>) -> V {
    s[choose|i: int| 0 <= i < s.len() && #[trigger] s[i].0@ == k].1
}

/// No two entries of `s` have the same key.
pub open spec fn unique_keys<V>(s: Seq<(String, V)>) -> bool {
    forall|i: int, j: int| 0 <= i < s.len() && 0 <= j < s.len() && i != j ==> #[trigger] s[i].0@ != #[trigger] s[j].0@
}

/// The map that the entries of `s` describe.
pub open spec fn entries_map<V>(s: Seq<(String, V)>) -> Map<Seq<char>, V> {
    Map::new(|k: Seq<char>| has_key(s, k), |k: Seq<char>| value_of(s, k))
}

/// In entries with unique keys, the value for the key at index `i` is the value at `i`.
pub proof fn lemma_value_at<V>(s: Seq<(String, V)>, i: int)
    requires
        unique_keys(s),
        0 <= i < s.len(),
    ensures
        has_key(s, s[i].0@),
        value_of(s, s[i].0@) == s[i].1,
        entries_map(s).contains_key(s[i].0@),
        entries_map(s)[s[i].0@] == s[i].1,
{
    let k = s[i].0@;
    assert(has_key(s, k));
    let j = choose|j: int| 0 <= j < s.len() && #[trigger] s[j].0@ == k;
    assert(j == i);
}

/// Appending an entry with a new key adds that key to the map.
pub proof fn lemma_push<V>(s: Seq<(String, V)>, e: (String, V))
    requires
        unique_keys(s),
        !has_key(s, e.0@),
    ensures
        unique_keys(s.push(e)),
        entries_map(s.push(e)) == entries_map(s).insert(e.0@, e.1),
{
    let s1 = s.push(e);
    let k = e.0@;
    let n = s.len() as int;
    assert forall|a: int, b: int|
        0 <= a < s1.len() && 0 <= b < s1.len() && a != b implies #[trigger] s1[a].0@
        != #[trigger] s1[b].0@ by {
        if a < n && b < n {
            assert(s1[a] == s[a] && s1[b] == s[b]);
        } else if a == n {
            assert(s1[b] == s[b]);
        } else {
            assert(s1[a] == s[a]);
        }
    }
    lemma_value_at(s1, n);
    assert forall|x: Seq<char>| #[trigger] has_key(s1, x) == (x == k || has_key(s, x)) by {
        if has_key(s, x) {
            let j = choose|j: int| 0 <= j < s.len() && #[trigger] s[j].0@ == x;
            assert(s1[j] == s[j]);
        }
        if has_key(s1, x) {
            let j = choose|j: int| 0 <= j < s1.len() && #[trigger] s1[j].0@ == x;
            if j != n {
                assert(s1[j] == s[j]);
            }
        }
    }
    assert forall|x: Seq<char>| #[trigger] has_key(s1, x) && x != k implies value_of(s1, x)
        == value_of(s, x) by {
        let j = choose|j: int| 0 <= j < s1.len() && #[trigger] s1[j].0@ == x;
        assert(j != n);
        assert(s1[j] == s[j]);
        lemma_value_at(s1, j);
        lemma_value_at(s, j);
    }
    assert(entries_map(s1) =~= entries_map(s).insert(k, e.1));
}

/// Map from action contexts to values.
pub struct ContextMap<V> {
    entries: Vec<(String, V)>,
}

impl<V> ContextMap<V> {
    /// The contexts and their values, in the order they were first stored.
    pub closed spec fn entries_view(self) -> Seq<(String, V)> {
        self.entries@
    }

    /// No context is stored twice.
    pub open spec fn wf(self) -> bool {
        unique_keys(self.entries_view())
    }

    /// The map from contexts to values.
    pub open spec fn view(self) -> Map<Seq<char>, V> {
        entries_map(self.entries_view())
    }

    /// The empty map.
    pub fn new() -> (m: Self)
        ensures
            m.wf(),
            m@ == Map::<Seq<char>, V>::empty(),
            m.entries_view().len() == 0,
    {
        let m = ContextMap { entries: Vec::new() };
        assert(m@ =~= Map::<Seq<char>, V>::empty());
        m
    }

    /// Number of stored contexts.
    pub fn len(&self) -> (n: usize)
        ensures
            n == self.entries_view().len(),
    {
        self.entries.len()
    }

    /// The `i`-th stored context and its value.
    pub fn entry(&self, i: usize) -> (e: &(String, V))
        requires
            i < self.entries_view().len(),
        ensures
            *e == self.entries_view()[i as int],
    {
        &self.entries[i]
    }

    /// Index of the entry for `key`.
    fn find(&self, key: &str) -> (r: Option<usize>)
        requires
            self.wf(),
        ensures
            match r {
                Some(i) => i < self.entries_view().len() && self.entries_view()[i as int].0@
                    == key@,
                None => !has_key(self.entries_view(), key@),
            },
    {
        let mut i: usize = 0;
        while i < self.entries.len()
            invariant
                i <= self.entries@.len(),
                forall|j: int| 0 <= j < i ==> #[trigger] self.entries@[j].0@ != key@,
            decreases self.entries@.len() - i,
        {
            if str_eq(self.entries[i].0.as_str(), key) {
                return Some(i);
            }
            i = i + 1;
        }
        None
    }

    /// The value stored for `key`.
    pub fn get(&self, key: &str) -> (r: Option<&V>)
        requires
            self.wf(),
        ensures
            match r {
                Some(v) => self@.contains_key(key@) && *v == self@[key@],
                None => !self@.contains_key(key@),
            },
    {
        match self.find(key) {
            Some(i) => {
                proof {
                    lemma_value_at(self.entries@, i as int);
                }
                Some(&self.entries[i].1)
            },
            None => None,
        }
    }

    /// Whether `key` is stored.
    pub fn contains(&self, key: &str) -> (r: bool)
        requires
            self.wf(),
        ensures
            r == self@.contains_key(key@),
    {
        self.find(key).is_some()
    }

    /// Stores `v` for `key`, replacing what was stored for it.
    pub fn insert(&mut self, key: String, v: V)
        requires
            old(self).wf(),
        ensures
            final(self).wf(),
            final(self)@ == old(self)@.insert(key@, v),
    {
        let ghost k = key@;
        let ghost s0 = self.entries@;
        match self.find(key.as_str()) {
            Some(i) => {
                let ghost vv = v;
                self.entries.set(i, (key, v));
                let ghost s1 = self.entries@;
                assert(s1 == s0.update(i as int, (s1[i as int].0, vv)));
                assert(unique_keys(s1)) by {
                    assert forall|a: int, b: int|
                        0 <= a < s1.len() && 0 <= b < s1.len() && a != b implies #[trigger] s1[a].0@
                        != #[trigger] s1[b].0@ by {
                        if a != i && b != i {
                            assert(s1[a] == s0[a] && s1[b] == s0[b]);
                        } else if a == i {
                            assert(s0[i as int].0@ == k);
                            assert(s1[b] == s0[b]);
                        } else {
                            assert(s0[i as int].0@ == k);
                            assert(s1[a] == s0[a]);
                        }
                    }
                }
                proof {
                    lemma_value_at(s1, i as int);
                    assert forall|x: Seq<char>| #[trigger] has_key(s1, x) == (x == k || has_key(s0, x)) by {
                        if has_key(s0, x) {
                            let j = choose|j: int| 0 <= j < s0.len() && #[trigger] s0[j].0@ == x;
                            if j != i {
                                assert(s1[j] == s0[j]);
                            }
                        }
                        if has_key(s1, x) {
                            let j = choose|j: int| 0 <= j < s1.len() && #[trigger] s1[j].0@ == x;
                            if j != i {
                                assert(s1[j] == s0[j]);
                            }
                        }
                    }
                    assert forall|x: Seq<char>| #[trigger] has_key(s1, x) && x != k implies value_of(
                        s1,
                        x,
                    ) == value_of(s0, x) by {
                        let j = choose|j: int| 0 <= j < s1.len() && #[trigger] s1[j].0@ == x;
                        assert(j != i);
                        assert(s1[j] == s0[j]);
                        lemma_value_at(s1, j);
                        lemma_value_at(s0, j);
                    }
                    assert(entries_map(s1) =~= entries_map(s0).insert(k, vv));
                }
            },
            None => {
                proof {
                    lemma_push(s0, (key, v));
                }
                self.entries.push((key, v));
            },
        }
    }

    /// Keeps the entries for which `keep` holds `true` (one flag per entry, in
    /// order); `keep_key` says the same of the entries' contexts.
    fn retain_flags(&mut self, keep: Vec<bool>, Ghost(keep_key): Ghost<spec_fn(Seq<char>) -> bool>)
        requires
            old(self).wf(),
            keep@.len() == old(self).entries_view().len(),
            forall|i: int| 0 <= i < keep@.len() ==> keep@[i] == keep_key(
                #[trigger] old(self).entries_view()[i].0@,
            ),
        ensures
            final(self).wf(),
            final(self)@ == old(self)@.restrict(
                old(self)@.dom().filter(|k: Seq<char>| keep_key(k)),
            ),
    {
        let ghost s0 = self.entries@;
        let n = keep.len();
        let mut rest: Vec<(String, V)> = Vec::new();
        while self.entries.len() > 0
            invariant
                self.entries@.len() + rest@.len() == s0.len(),
                self.entries@ == s0.take(self.entries@.len() as int),
                forall|i: int| 0 <= i < rest@.len() ==> #[trigger] rest@[i] == s0[s0.len() - 1 - i],
            decreases self.entries@.len(),
        {
            let ghost before = self.entries@;
            let e = self.entries.pop().unwrap();
            assert(self.entries@ == s0.take(self.entries@.len() as int));
            assert(e == s0[s0.len() - 1 - rest@.len()]);
            rest.push(e);
        }
        let mut kept: Vec<(String, V)> = Vec::new();
        let mut taken: usize = 0;
        assert(s0.take(0) =~= Seq::<(String, V)>::empty());
        assert(entries_map(kept@) =~= entries_map(s0.take(0)).restrict(
            entries_map(s0.take(0)).dom().filter(|k: Seq<char>| keep_key(k)),
        ));
        while rest.len() > 0
            invariant
                taken <= s0.len() == n,
                rest@.len() == s0.len() - taken,
                forall|i: int| 0 <= i < rest@.len() ==> #[trigger] rest@[i] == s0[s0.len() - 1 - i],
                keep@.len() == s0.len(),
                forall|i: int| 0 <= i < keep@.len() ==> keep@[i] == keep_key(#[trigger] s0[i].0@),
                unique_keys(s0),
                unique_keys(kept@),
                entries_map(kept@) == entries_map(s0.take(taken as int)).restrict(
                    entries_map(s0.take(taken as int)).dom().filter(|k: Seq<char>| keep_key(k)),
                ),
            decreases rest@.len(),
        {
            let e = rest.pop().unwrap();
            assert(e == s0[taken as int]);
            let ghost pre = s0.take(taken as int);
            let ghost post = s0.take(taken + 1);
            proof {
                assert(post == pre.push(e));
                assert(unique_keys(pre)) by {
                    assert forall|a: int, b: int|
                        0 <= a < pre.len() && 0 <= b < pre.len() && a != b implies #[trigger] pre[a].0@
                        != #[trigger] pre[b].0@ by {
                        assert(pre[a] == s0[a] && pre[b] == s0[b]);
                    }
                }
                assert(!has_key(pre, e.0@)) by {
                    if has_key(pre, e.0@) {
                        let j = choose|j: int| 0 <= j < pre.len() && #[trigger] pre[j].0@ == e.0@;
                        assert(pre[j] == s0[j]);
                    }
                }
                lemma_push(pre, e);
            }
            if keep[taken] {
                proof {
                    assert(!has_key(kept@, e.0@)) by {
                        if has_key(kept@, e.0@) {
                            let j = choose|j: int| 0 <= j < kept@.len() && #[trigger] kept@[j].0@ == e.0@;
                            lemma_value_at(kept@, j);
                            assert(entries_map(kept@).contains_key(e.0@));
                            assert(entries_map(pre).contains_key(e.0@));
                        }
                    }
                    lemma_push(kept@, e);
                }
                kept.push(e);
                assert(entries_map(kept@) =~= entries_map(post).restrict(
                    entries_map(post).dom().filter(|k: Seq<char>| keep_key(k)),
                ));
            } else {
                assert(entries_map(kept@) =~= entries_map(post).restrict(
                    entries_map(post).dom().filter(|k: Seq<char>| keep_key(k)),
                ));
            }
            taken = taken + 1;
        }
        assert(s0.take(taken as int) =~= s0);
        self.entries = kept;
    }

    /// Forgets what was stored for `key`.
    pub fn remove(&mut self, key: &str)
        requires
            old(self).wf(),
        ensures
            final(self).wf(),
            final(self)@ == old(self)@.remove(key@),
    {
        let ghost k = key@;
        let mut keep: Vec<bool> = Vec::new();
        let mut i: usize = 0;
        while i < self.entries.len()
            invariant
                i <= self.entries@.len(),
                keep@.len() == i,
                k == key@,
                forall|j: int| 0 <= j < i ==> keep@[j] == (#[trigger] self.entries@[j].0@ != k),
            decreases self.entries@.len() - i,
        {
            let differs = !str_eq(self.entries[i].0.as_str(), key);
            keep.push(differs);
            assert(keep@[i as int] == (self.entries@[i as int].0@ != k));
            i = i + 1;
        }
        let ghost before = self@;
        self.retain_flags(keep, Ghost(|x: Seq<char>| x != k));
        assert(self@ =~= before.remove(k));
    }

    /// Keeps only the contexts listed in `present`.
    pub fn retain_present(&mut self, present: &[String])
        requires
            old(self).wf(),
        ensures
            final(self).wf(),
            final(self)@ == old(self)@.restrict(
                old(self)@.dom().filter(|k: Seq<char>| exists|i: int| 0 <= i < present@.len() && #[trigger] present@[i]@ == k),
            ),
    {
        let ghost in_present = |k: Seq<char>| exists|i: int| 0 <= i < present@.len() && #[trigger] present@[i]@ == k;
        let mut keep: Vec<bool> = Vec::new();
        let mut i: usize = 0;
        while i < self.entries.len()
            invariant
                i <= self.entries@.len(),
                keep@.len() == i,
                in_present == (|k: Seq<char>| exists|m: int| 0 <= m < present@.len() && #[trigger] present@[m]@ == k),
                forall|j: int| 0 <= j < i ==> keep@[j] == in_present(#[trigger] self.entries@[j].0@),
            decreases self.entries@.len() - i,
        {
            let mut found = false;
            let mut j: usize = 0;
            while j < present.len()
                invariant
                    j <= present@.len(),
                    i < self.entries@.len(),
                    found == exists|m: int| 0 <= m < j && #[trigger] present@[m]@ == self.entries@[i as int].0@,
                decreases present@.len() - j,
            {
                if str_eq(present[j].as_str(), self.entries[i].0.as_str()) {
                    found = true;
                }
                j = j + 1;
            }
            keep.push(found);
            assert(keep@[i as int] == in_present(self.entries@[i as int].0@));
            i = i + 1;
        }
        self.retain_flags(keep, Ghost(in_present));
    }
}

} // verus!
