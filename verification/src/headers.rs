use vstd::prelude::*;
use crate::text::{lower_seq, to_lowercase};

verus! {

/// The lower-cased `accept` header name.
pub open spec fn accept_key() -> Seq<char> {
    seq!['a', 'c', 'c', 'e', 'p', 't']
}

/// The lower-cased `content-type` header name.
pub open spec fn content_type_key() -> Seq<char> {
    seq!['c', 'o', 'n', 't', 'e', 'n', 't', '-', 't', 'y', 'p', 'e']
}

/// The lower-cased `user-agent` header name.
pub open spec fn user_agent_key() -> Seq<char> {
    seq!['u', 's', 'e', 'r', '-', 'a', 'g', 'e', 'n', 't']
}

/// The (name, value) pairs of a vector of strings, as character sequences.
pub open spec fn pairs_view(s: Seq<(String, String)>) -> Seq<(Seq<char>, Seq<char>)> {
    s.map(|i: int, e: (String, String)| (e.0@, e.1@))
}

/// Pairwise-distinct first components: no header name occurs twice.
pub open spec fn distinct_keys(s: Seq<(Seq<char>, Seq<char>)>) -> bool {
    forall|i: int, j: int| 0 <= i < j < s.len() ==> (#[trigger] s[i]).0 != (#[trigger] s[j]).0
}

/// The map an association list denotes; later entries win.
pub open spec fn assoc_map(s: Seq<(Seq<char>, Seq<char>)>) -> Map<Seq<char>, Seq<char>>
    decreases s.len(),
{
    if s.len() == 0 {
        Map::empty()
    } else {
        assoc_map(s.drop_last()).insert(s.last().0, s.last().1)
    }
}

/// A key is in the denoted map exactly when some entry carries it.
pub proof fn lemma_assoc_map_contains(s: Seq<(Seq<char>, Seq<char>)>, k: Seq<char>)
    ensures
        assoc_map(s).contains_key(k) <==> exists|i: int| 0 <= i < s.len() && (#[trigger] s[i]).0 == k,
    decreases s.len(),
{
    if s.len() > 0 {
        lemma_assoc_map_contains(s.drop_last(), k);
        if s.last().0 == k {
            assert(s[s.len() - 1].0 == k);
        } else if assoc_map(s).contains_key(k) {
            let i = choose|i: int| 0 <= i < s.drop_last().len() && (#[trigger] s.drop_last()[i]).0 == k;
            assert(s[i].0 == k);
        } else {
            assert forall|i: int| 0 <= i < s.len() && (#[trigger] s[i]).0 == k implies false by {
                if i < s.len() - 1 {
                    assert(s.drop_last()[i].0 == k);
                }
            }
        }
    }
}

/// With distinct keys, the entry at `i` is what the denoted map holds for its name.
pub proof fn lemma_assoc_map_get(s: Seq<(Seq<char>, Seq<char>)>, i: int)
    requires
        distinct_keys(s),
        0 <= i < s.len(),
    ensures
        assoc_map(s).contains_key(s[i].0),
        assoc_map(s)[s[i].0] == s[i].1,
    decreases s.len(),
{
    if i < s.len() - 1 {
        assert(s.drop_last()[i] == s[i]);
        lemma_assoc_map_get(s.drop_last(), i);
        assert(s[i].0 != s.last().0);
    }
}

/// Overwriting the value of the entry that carries `k` updates the denoted
/// map at `k` and nothing else.
pub proof fn lemma_assoc_map_update(s: Seq<(Seq<char>, Seq<char>)>, i: int, v: Seq<char>)
    requires
        distinct_keys(s),
        0 <= i < s.len(),
    ensures
        assoc_map(s.update(i, (s[i].0, v))) == assoc_map(s).insert(s[i].0, v),
    decreases s.len(),
{
    let t = s.update(i, (s[i].0, v));
    if i == s.len() - 1 {
        assert(t.drop_last() =~= s.drop_last());
        assert(t.last() == (s[i].0, v));
        assert(assoc_map(t) =~= assoc_map(s).insert(s[i].0, v));
    } else {
        assert(t.drop_last() =~= s.drop_last().update(i, (s[i].0, v)));
        assert(s.drop_last()[i] == s[i]);
        lemma_assoc_map_update(s.drop_last(), i, v);
        assert(t.last() == s.last());
        assert(s[i].0 != s.last().0);
        assert(assoc_map(t) =~= assoc_map(s).insert(s[i].0, v));
    }
}

/// Appending a fresh entry inserts its pair into the denoted map.
pub proof fn lemma_assoc_map_push(s: Seq<(Seq<char>, Seq<char>)>, k: Seq<char>, v: Seq<char>)
    ensures
        assoc_map(s.push((k, v))) == assoc_map(s).insert(k, v),
{
    assert(s.push((k, v)).drop_last() =~= s);
    assert(s.push((k, v)).last() == (k, v));
}

/// In a well-formed map, every stored entry is what the denoted map holds
/// under its name.
pub proof fn lemma_entries_in_map(m: &HeaderMap)
    requires
        m.wf(),
    ensures
        forall|i: int|
            0 <= i < m.entries_view().len() ==> m.as_map().contains_key(
                (#[trigger] m.entries_view()[i]).0,
            ) && m.as_map()[m.entries_view()[i].0] == m.entries_view()[i].1,
{
    assert forall|i: int| 0 <= i < m.entries_view().len() implies m.as_map().contains_key(
        (#[trigger] m.entries_view()[i]).0,
    ) && m.as_map()[m.entries_view()[i].0] == m.entries_view()[i].1 by {
        lemma_assoc_map_get(m.entries_view(), i);
    }
}

/// A client's default headers: a map from lower-cased header names to
/// values, each name held at most once.
pub struct HeaderMap {
    entries: Vec<(String, String)>,
}

impl HeaderMap {
    /// The stored (name, value) pairs as character sequences, in storage order.
    pub closed spec fn entries_view(&self) -> Seq<(Seq<char>, Seq<char>)> {
        pairs_view(self.entries@)
    }

    /// The map from header names to values that this container denotes.
    pub open spec fn as_map(&self) -> Map<Seq<char>, Seq<char>> {
        assoc_map(self.entries_view())
    }

    /// Every stored name is lower-cased, and no name repeats.
    pub open spec fn wf(&self) -> bool {
        &&& forall|i: int|
            0 <= i < self.entries_view().len() ==> lower_seq(
                (#[trigger] self.entries_view()[i]).0,
            ) == self.entries_view()[i].0
        &&& distinct_keys(self.entries_view())
    }

    /// An empty header map.
    pub fn new() -> (r: Self)
        ensures
            r.wf(),
            r.as_map() == Map::<Seq<char>, Seq<char>>::empty(),
            r.entries_view().len() == 0,
    {
        HeaderMap { entries: Vec::new() }
    }

    /// How many headers are set.
    pub fn len(&self) -> (r: usize)
        ensures
            r == self.entries_view().len(),
    {
        self.entries.len()
    }

    /// The index of the entry whose name is exactly `name`, if any.
    fn find_index(&self, name: &String) -> (r: Option<usize>)
        ensures
            match r {
                Some(i) => i < self.entries_view().len() && self.entries_view()[i as int].0
                    == name@,
                None => forall|i: int|
                    0 <= i < self.entries_view().len() ==> (#[trigger] self.entries_view()[i]).0
                        != name@,
            },
    {
        let mut k: usize = 0;
        while k < self.entries.len()
            invariant
                k <= self.entries_view().len(),
                self.entries_view().len() == self.entries@.len(),
                forall|i: int|
                    0 <= i < k ==> (#[trigger] self.entries_view()[i]).0 != name@,
            decreases self.entries@.len() - k,
        {
            let e = &self.entries[k];
            if e.0.eq(name) {
                return Some(k);
            }
            k = k + 1;
        }
        None
    }

    /// The value stored under `name`, compared case-insensitively.
    pub fn get(&self, name: &str) -> (r: Option<&String>)
        requires
            self.wf(),
        ensures
            match r {
                Some(v) => self.as_map().contains_key(lower_seq(name@)) && v@ == self.as_map()[
                    lower_seq(name@)
                ],
                None => !self.as_map().contains_key(lower_seq(name@)),
            },
    {
        let key = to_lowercase(name);
        match self.find_index(&key) {
            Some(i) => {
                proof {
                    lemma_assoc_map_get(self.entries_view(), i as int);
                }
                Some(&self.entries[i].1)
            },
            None => {
                proof {
                    lemma_assoc_map_contains(self.entries_view(), lower_seq(name@));
                }
                None
            },
        }
    }

    /// Whether a header named `name` (case-insensitively) is set.
    pub fn contains(&self, name: &str) -> (r: bool)
        requires
            self.wf(),
        ensures
            r == self.as_map().contains_key(lower_seq(name@)),
    {
        match self.get(name) {
            Some(_) => true,
            None => false,
        }
    }

    /// Sets `name` (stored lower-cased) to `value`, overwriting any previous
    /// value held under the same name.
    pub fn insert(&mut self, name: &str, value: String)
        requires
            old(self).wf(),
        ensures
            final(self).wf(),
            final(self).as_map() == old(self).as_map().insert(lower_seq(name@), value@),
    {
        let key = to_lowercase(name);
        proof {
            crate::text::lemma_lower_seq_idempotent(name@);
        }
        match self.find_index(&key) {
            Some(i) => {
                proof {
                    lemma_assoc_map_update(self.entries_view(), i as int, value@);
                }
                self.entries[i] = (key, value);
                proof {
                    assert(self.entries_view() =~= old(self).entries_view().update(
                        i as int,
                        (old(self).entries_view()[i as int].0, value@),
                    ));
                }
            },
            None => {
                proof {
                    lemma_assoc_map_push(self.entries_view(), lower_seq(name@), value@);
                }
                self.entries.push((key, value));
                proof {
                    assert(self.entries_view() =~= old(self).entries_view().push(
                        (lower_seq(name@), value@),
                    ));
                }
            },
        }
    }

    /// An independent copy holding the same entries.
    pub fn duplicate(&self) -> (r: Self)
        ensures
            r.entries_view() == self.entries_view(),
            r.as_map() == self.as_map(),
            self.wf() ==> r.wf(),
    {
        let mut out: Vec<(String, String)> = Vec::new();
        let mut k: usize = 0;
        while k < self.entries.len()
            invariant
                k <= self.entries@.len(),
                out@.len() == k,
                forall|i: int| 0 <= i < k ==> out@[i] == self.entries@[i],
            decreases self.entries@.len() - k,
        {
            let e = &self.entries[k];
            out.push((e.0.clone(), e.1.clone()));
            k = k + 1;
        }
        let r = HeaderMap { entries: out };
        proof {
            assert(r.entries_view() =~= self.entries_view());
        }
        r
    }

    /// The stored pairs, cloned, in storage order.
    pub fn pairs(&self) -> (r: Vec<(String, String)>)
        ensures
            r@.len() == self.entries_view().len(),
            forall|i: int|
                0 <= i < r@.len() ==> ((#[trigger] r@[i]).0@, r@[i].1@) == self.entries_view()[i],
    {
        let d = self.duplicate();
        d.entries
    }
}

} // verus!
