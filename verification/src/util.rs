//! String-keyed header maps and the comparisons that request matching uses.

use vstd::prelude::*;

verus! {

/// The abstract value of a header entry: its name and its value as text.
pub open spec fn entry_view(e: (String, String)) -> (Seq<char>, Seq<char>) {
    (e.0@, e.1@)
}

/// `big` holds every entry of `small`: each name of `small` is in `big`,
/// with the same value.
pub open spec fn map_includes(big: Map<Seq<char>, Seq<char>>, small: Map<Seq<char>, Seq<char>>) -> bool {
    forall|k: Seq<char>| #[trigger] small.contains_key(k) ==> big.contains_key(k) && big[k] == small[k]
}

/// A header map's value with "absent" read as the empty map.
pub open spec fn headers_or_empty(h: Option<Map<Seq<char>, Seq<char>>>) -> Map<Seq<char>, Seq<char>> {
    match h {
        Some(m) => m,
        None => Map::empty(),
    }
}

/// Two optional texts are equal, "absent" counting as the empty text.
pub open spec fn eq_none_as_empty(a: Option<Seq<char>>, b: Option<Seq<char>>) -> bool {
    text_or_empty(a) == text_or_empty(b)
}

/// An optional text with "absent" read as the empty text.
pub open spec fn text_or_empty(a: Option<Seq<char>>) -> Seq<char> {
    match a {
        Some(t) => t,
        None => Seq::empty(),
    }
}

/// The view of an optional text.
pub open spec fn opt_text(a: Option<String>) -> Option<Seq<char>> {
    match a {
        Some(t) => Some(t@),
        None => None,
    }
}

/// The view of an optional header map.
pub open spec fn opt_headers(h: Option<HeaderMap>) -> Option<Map<Seq<char>, Seq<char>>> {
    match h {
        Some(m) => Some(m@),
        None => None,
    }
}

/// A map from header names to header values. Every name occurs at most once;
/// inserting a name that is already present replaces its value.
pub struct HeaderMap {
    entries: Vec<(String, String)>,
}

impl HeaderMap {
    #[verifier::type_invariant]
    closed spec fn names_distinct(self) -> bool {
        forall|i: int, j: int|
            0 <= i < j < self.entries@.len() ==> (#[trigger] self.entries@[i]).0@
                != (#[trigger] self.entries@[j]).0@
    }

    /// Some position of `entries` holds the name `k`.
    closed spec fn has_name(self, k: Seq<char>) -> bool {
        exists|i: int| 0 <= i < self.entries@.len() && (#[trigger] self.entries@[i]).0@ == k
    }

    closed spec fn index_of(self, k: Seq<char>) -> int {
        choose|i: int| 0 <= i < self.entries@.len() && (#[trigger] self.entries@[i]).0@ == k
    }
}

impl View for HeaderMap {
    type V = Map<Seq<char>, Seq<char>>;

    closed spec fn view(&self) -> Map<Seq<char>, Seq<char>> {
        Map::new(|k: Seq<char>| self.has_name(k), |k: Seq<char>| self.entries@[self.index_of(k)].1@)
    }
}

impl HeaderMap {
    /// The entry at position `i` is what the map holds for its name.
    proof fn lemma_entry_in_view(self, i: int)
        requires
            self.names_distinct(),
            0 <= i < self.entries@.len(),
        ensures
            self@.contains_key(self.entries@[i].0@),
            self@[self.entries@[i].0@] == self.entries@[i].1@,
    {
        let k = self.entries@[i].0@;
        assert(self.has_name(k));
        let j = self.index_of(k);
        assert(self.entries@[j].0@ == k);
        if j < i {
            assert(self.entries@[j].0@ != self.entries@[i].0@);
        } else if i < j {
            assert(self.entries@[i].0@ != self.entries@[j].0@);
        }
    }

    /// Replacing the value at position `i`, under the same name, replaces the
    /// value that the map holds for that name.
    proof fn lemma_update_view(self, before: HeaderMap, i: int)
        requires
            self.names_distinct(),
            before.names_distinct(),
            0 <= i < before.entries@.len(),
            self.entries@.len() == before.entries@.len(),
            self.entries@[i].0@ == before.entries@[i].0@,
            forall|j: int| 0 <= j < before.entries@.len() && j != i ==> self.entries@[j] == before.entries@[j],
        ensures
            self@ =~= before@.insert(self.entries@[i].0@, self.entries@[i].1@),
    {
        let key = self.entries@[i].0@;
        self.lemma_entry_in_view(i);
        assert forall|k: Seq<char>| #[trigger] self.has_name(k) == before.has_name(k) by {
            if self.has_name(k) {
                let j = self.index_of(k);
                assert(before.entries@[j].0@ == k);
            }
            if before.has_name(k) {
                let j = before.index_of(k);
                assert(self.entries@[j].0@ == k);
            }
        }
        assert forall|k: Seq<char>| self@.contains_key(k) && k != key implies self@[k] == before@[k] by {
            let j = before.index_of(k);
            assert(before.entries@[j].0@ == k);
            assert(j != i);
            before.lemma_entry_in_view(j);
            self.lemma_entry_in_view(j);
        }
    }

    /// Appending an entry under a new name adds that name to the map.
    proof fn lemma_push_view(self, before: HeaderMap)
        requires
            self.names_distinct(),
            before.names_distinct(),
            self.entries@.len() == before.entries@.len() + 1,
            forall|j: int| 0 <= j < before.entries@.len() ==> self.entries@[j] == before.entries@[j],
            !before.has_name(self.entries@.last().0@),
        ensures
            self@ =~= before@.insert(self.entries@.last().0@, self.entries@.last().1@),
    {
        let n = before.entries@.len() as int;
        let key = self.entries@[n].0@;
        self.lemma_entry_in_view(n);
        assert forall|k: Seq<char>| #[trigger] self.has_name(k) == (before.has_name(k) || k == key) by {
            if self.has_name(k) {
                let j = self.index_of(k);
                if j < n {
                    assert(before.entries@[j].0@ == k);
                }
            }
            if before.has_name(k) {
                let j = before.index_of(k);
                assert(self.entries@[j].0@ == k);
            }
        }
        assert forall|k: Seq<char>| self@.contains_key(k) && k != key implies self@[k] == before@[k] by {
            let j = before.index_of(k);
            assert(before.entries@[j].0@ == k);
            before.lemma_entry_in_view(j);
            self.lemma_entry_in_view(j);
        }
    }

    /// An empty header map.
    pub fn new() -> (m: HeaderMap)
        ensures
            m@ == Map::<Seq<char>, Seq<char>>::empty(),
    {
        let m = HeaderMap { entries: Vec::new() };
        assert(m@ =~= Map::<Seq<char>, Seq<char>>::empty());
        m
    }

    /// The position of the entry named `key`, if there is one.
    fn position(&self, key: &String) -> (r: Option<usize>)
        ensures
            match r {
                Some(i) => i < self.entries@.len() && self.entries@[i as int].0@ == key@,
                None => !self.has_name(key@),
            },
    {
        let n = self.entries.len();
        let mut i: usize = 0;
        while i < n
            invariant
                n == self.entries@.len(),
                i <= n,
                forall|j: int| 0 <= j < i ==> (#[trigger] self.entries@[j]).0@ != key@,
            decreases n - i,
        {
            if self.entries[i].0 == *key {
                return Some(i);
            }
            i = i + 1;
        }
        None
    }

    /// The value stored under `key`, if any.
    pub fn get(&self, key: &String) -> (r: Option<&String>)
        ensures
            match r {
                Some(v) => self@.contains_key(key@) && v@ == self@[key@],
                None => !self@.contains_key(key@),
            },
    {
        proof {
            use_type_invariant(self);
        }
        match self.position(key) {
            Some(i) => {
                proof {
                    self.lemma_entry_in_view(i as int);
                }
                Some(&self.entries[i].1)
            },
            None => None,
        }
    }

    /// Stores `value` under `key`, replacing and returning the value that was
    /// stored there before.
    pub fn insert(&mut self, key: String, value: String) -> (r: Option<String>)
        ensures
            final(self)@ == old(self)@.insert(key@, value@),
            match r {
                Some(v) => old(self)@.contains_key(key@) && v@ == old(self)@[key@],
                None => !old(self)@.contains_key(key@),
            },
    {
        proof {
            use_type_invariant(&*self);
        }
        let ghost before = *self;
        match self.position(&key) {
            Some(i) => {
                proof {
                    before.lemma_entry_in_view(i as int);
                }
                let previous = self.entries[i].1.clone();
                let mut entries: Vec<(String, String)> = Vec::new();
                std::mem::swap(&mut entries, &mut self.entries);
                entries.set(i, (key, value));
                self.entries = entries;
                proof {
                    assert forall|a: int, b: int|
                        0 <= a < b < self.entries@.len() implies (#[trigger] self.entries@[a]).0@
                        != (#[trigger] self.entries@[b]).0@ by {
                        assert(before.entries@[a].0@ != before.entries@[b].0@);
                    }
                    self.lemma_update_view(before, i as int);
                }
                Some(previous)
            },
            None => {
                let mut entries: Vec<(String, String)> = Vec::new();
                std::mem::swap(&mut entries, &mut self.entries);
                entries.push((key, value));
                self.entries = entries;
                proof {
                    assert forall|a: int, b: int|
                        0 <= a < b < self.entries@.len() implies (#[trigger] self.entries@[a]).0@
                        != (#[trigger] self.entries@[b]).0@ by {
                        if b < before.entries@.len() {
                            assert(before.entries@[a].0@ != before.entries@[b].0@);
                        } else {
                            assert(before.entries@[a].0@ != key@);
                        }
                    }
                    self.lemma_push_view(before);
                }
                None
            },
        }
    }
    /// Whether `self` holds every entry of `other` (same names, same values).
    pub fn contains(&self, other: &HeaderMap) -> (r: bool)
        ensures
            r == map_includes(self@, other@),
    {
        proof {
            use_type_invariant(self);
            use_type_invariant(other);
        }
        let n = other.entries.len();
        let mut i: usize = 0;
        while i < n
            invariant
                n == other.entries@.len(),
                i <= n,
                other.names_distinct(),
                forall|j: int|
                    0 <= j < i ==> self@.contains_key((#[trigger] other.entries@[j]).0@)
                        && self@[other.entries@[j].0@] == other.entries@[j].1@,
            decreases n - i,
        {
            let name = &other.entries[i].0;
            let value = &other.entries[i].1;
            proof {
                other.lemma_entry_in_view(i as int);
            }
            match self.get(name) {
                Some(found) => {
                    if !(*found == *value) {
                        return false;
                    }
                },
                None => {
                    return false;
                },
            }
            i = i + 1;
        }
        proof {
            assert forall|k: Seq<char>| #[trigger] other@.contains_key(k) implies self@.contains_key(k)
                && self@[k] == other@[k] by {
                let j = other.index_of(k);
                assert(other.entries@[j].0@ == k);
                other.lemma_entry_in_view(j);
            }
        }
        true
    }

    /// A copy of this map.
    pub fn duplicate(&self) -> (r: HeaderMap)
        ensures
            r@ == self@,
    {
        proof {
            use_type_invariant(self);
        }
        let n = self.entries.len();
        let mut copied: Vec<(String, String)> = Vec::new();
        let mut i: usize = 0;
        while i < n
            invariant
                n == self.entries@.len(),
                i <= n,
                copied@.len() == i,
                forall|j: int|
                    0 <= j < i ==> entry_view(#[trigger] copied@[j]) == entry_view(self.entries@[j]),
            decreases n - i,
        {
            let name = self.entries[i].0.clone();
            let value = self.entries[i].1.clone();
            copied.push((name, value));
            i = i + 1;
        }
        let r = HeaderMap { entries: copied };
        proof {
            assert forall|k: Seq<char>| #[trigger] r.has_name(k) == self.has_name(k) by {
                if r.has_name(k) {
                    let j = r.index_of(k);
                    assert(entry_view(copied@[j]) == entry_view(self.entries@[j]));
                    assert(self.entries@[j].0@ == k);
                }
                if self.has_name(k) {
                    let j = self.index_of(k);
                    assert(entry_view(copied@[j]) == entry_view(self.entries@[j]));
                    assert(r.entries@[j].0@ == k);
                }
            }
            assert forall|k: Seq<char>| r@.contains_key(k) implies r@[k] == self@[k] by {
                let j = self.index_of(k);
                assert(entry_view(copied@[j]) == entry_view(self.entries@[j]));
                self.lemma_entry_in_view(j);
                r.lemma_entry_in_view(j);
            }
            assert(r@ =~= self@);
        }
        r
    }

    /// The entries of this map, each name once.
    pub fn entries(&self) -> (r: &Vec<(String, String)>)
        ensures
            forall|i: int|
                0 <= i < r@.len() ==> self@.contains_key((#[trigger] r@[i]).0@) && self@[r@[i].0@]
                    == r@[i].1@,
            forall|k: Seq<char>|
                #[trigger] self@.contains_key(k) ==> exists|i: int| 0 <= i < r@.len() && (#[trigger] r@[i]).0@ == k,
            forall|i: int, j: int| 0 <= i < j < r@.len() ==> (#[trigger] r@[i]).0@ != (#[trigger] r@[j]).0@,
    {
        proof {
            use_type_invariant(self);
            assert forall|i: int| 0 <= i < self.entries@.len() implies self@.contains_key(
                (#[trigger] self.entries@[i]).0@,
            ) && self@[self.entries@[i].0@] == self.entries@[i].1@ by {
                self.lemma_entry_in_view(i);
            }
            assert forall|k: Seq<char>| #[trigger] self@.contains_key(k) implies exists|i: int|
                0 <= i < self.entries@.len() && (#[trigger] self.entries@[i]).0@ == k by {
                let j = self.index_of(k);
                assert(self.entries@[j].0@ == k);
            }
        }
        &self.entries
    }
}


/// Two optional texts are equal: both absent, or both present with the same
/// characters.
pub fn opt_text_eq(a: &Option<String>, b: &Option<String>) -> (r: bool)
    ensures
        r == (opt_text(*a) == opt_text(*b)),
        a is Some && b is Some ==> (r <==> a.unwrap()@ == b.unwrap()@),
        (a is None && b is None) ==> r,
        (a is None) != (b is None) ==> !r,
{
    match (a, b) {
        (Some(x), Some(y)) => *x == *y,
        (None, None) => true,
        _ => false,
    }
}

/// Two optional texts are equal when an absent one is read as the empty text.
pub fn eq_none_as_default(a: &Option<String>, b: &Option<String>) -> (r: bool)
    ensures
        r == eq_none_as_empty(opt_text(*a), opt_text(*b)),
        a is Some && b is Some ==> (r <==> a.unwrap()@ == b.unwrap()@),
        a is Some && b is None ==> (r <==> a.unwrap()@.len() == 0),
        a is None && b is Some ==> (r <==> b.unwrap()@.len() == 0),
        (a is None && b is None) ==> r,
{
    let empty = String::new();
    match (a, b) {
        (Some(x), Some(y)) => *x == *y,
        (None, None) => true,
        (Some(x), None) => {
            let r = *x == empty;
            proof {
                if x@.len() == 0 {
                    assert(x@ =~= empty@);
                }
            }
            r
        },
        (None, Some(y)) => {
            let r = *y == empty;
            proof {
                if y@.len() == 0 {
                    assert(y@ =~= empty@);
                }
            }
            r
        },
    }
}

/// `a` holds every entry of `b`, an absent map being read as the empty map.
pub fn contains_opt(a: &Option<HeaderMap>, b: &Option<HeaderMap>) -> (r: bool)
    ensures
        r == map_includes(headers_or_empty(opt_headers(*a)), headers_or_empty(opt_headers(*b))),
        r <==> (*b matches Some(w) ==> forall|k: Seq<char>|
            #[trigger] w@.contains_key(k) ==> (*a matches Some(p) && p@.contains_key(k) && p@[k]
                == w@[k])),
{
    match b {
        None => {
            let ghost big = headers_or_empty(opt_headers(*a));
            assert(map_includes(big, Map::empty()));
            true
        },
        Some(wanted) => match a {
            Some(present) => present.contains(wanted),
            None => {
                let nothing = HeaderMap::new();
                nothing.contains(wanted)
            },
        },
    }
}

impl Clone for HeaderMap {
    fn clone(&self) -> (r: Self)
        ensures
            r@ == self@,
    {
        self.duplicate()
    }
}

} // verus!
