//! String-keyed collections of the UI state: a set of strings (expanded
//! projects and directories) and a map from setting keys to switches.
use vstd::prelude::*;
use vstd::string::StringSliceAdditionalSpecFns;
use crate::seqs::{first_where, lemma_first_where, lemma_first_where_is, lemma_first_where_none};

verus! {

/// Whether `a` and `b` hold the same characters.
pub fn str_eq(a: &str, b: &str) -> (r: bool)
    ensures
        r == (a@ == b@),
{
    let x = a.as_bytes();
    let y = b.as_bytes();
    proof {
        // The UTF-8 encoding of a string is injective: equal bytes, equal characters.
        vstd::utf8::encode_utf8_decode_utf8(a@);
        vstd::utf8::encode_utf8_decode_utf8(b@);
    }
    if x.len() != y.len() {
        return false;
    }
    let mut i: usize = 0;
    while i < x.len()
        invariant
            x@ == a.spec_bytes(),
            y@ == b.spec_bytes(),
            x.len() == y.len(),
            i <= x.len(),
            forall|j: int| 0 <= j < i ==> x@[j] == y@[j],
        decreases x.len() - i,
    {
        if x[i] != y[i] {
            return false;
        }
        i += 1;
    }
    proof {
        assert(x@ =~= y@);
    }
    true
}

/// A set of strings.
pub struct StrSet {
    items: Vec<String>,
}

pub open spec fn strings_view(s: Seq<String>) -> Seq<Seq<char>> {
    s.map_values(|x: String| x@)
}

impl View for StrSet {
    type V = Set<Seq<char>>;

    closed spec fn view(&self) -> Set<Seq<char>> {
        strings_view(self.items@).to_set()
    }
}

impl StrSet {
    /// The empty set.
    pub fn new() -> (r: StrSet)
        ensures
            r@ == Set::<Seq<char>>::empty(),
    {
        let r = StrSet { items: Vec::new() };
        proof {
            assert(strings_view(r.items@).to_set() =~= Set::<Seq<char>>::empty());
        }
        r
    }

    /// Whether `key` is in the set.
    pub fn contains(&self, key: &str) -> (r: bool)
        ensures
            r == self@.contains(key@),
    {
        let ghost v = strings_view(self.items@);
        let mut i: usize = 0;
        while i < self.items.len()
            invariant
                i <= self.items.len(),
                v == strings_view(self.items@),
                forall|j: int| 0 <= j < i ==> v[j] != key@,
            decreases self.items.len() - i,
        {
            if str_eq(self.items[i].as_str(), key) {
                proof {
                    assert(v[i as int] == key@);
                    assert(v.to_set().contains(key@));
                }
                return true;
            }
            i += 1;
        }
        proof {
            if v.to_set().contains(key@) {
                assert(v.contains(key@));
            }
        }
        false
    }

    /// Adds `key` to the set.
    pub fn insert(&mut self, key: String)
        ensures
            final(self)@ == old(self)@.insert(key@),
    {
        if !self.contains(key.as_str()) {
            let ghost old_items = self.items@;
            self.items.push(key);
            proof {
                let v = strings_view(self.items@);
                let ov = strings_view(old_items);
                assert(v =~= ov.push(key@));
                assert forall|x: Seq<char>| v.to_set().contains(x) <==> ov.to_set().insert(
                    key@,
                ).contains(x) by {
                    if v.contains(x) && x != key@ {
                        let j = choose|j: int| 0 <= j < v.len() && v[j] == x;
                        assert(ov[j] == x);
                    }
                    if ov.contains(x) {
                        let j = choose|j: int| 0 <= j < ov.len() && ov[j] == x;
                        assert(v[j] == x);
                    }
                    if x == key@ {
                        assert(v[v.len() - 1] == x);
                    }
                }
                assert(v.to_set() =~= ov.to_set().insert(key@));
            }
        } else {
            proof {
                assert(old(self)@.insert(key@) =~= old(self)@);
            }
        }
    }

    /// Removes `key` from the set.
    pub fn remove(&mut self, key: &str)
        ensures
            final(self)@ == old(self)@.remove(key@),
    {
        let ghost ov = strings_view(self.items@);
        let mut i: usize = 0;
        while i < self.items.len()
            invariant
                i <= self.items.len(),
                forall|j: int| 0 <= j < i ==> strings_view(self.items@)[j] != key@,
                forall|x: Seq<char>|
                    x != key@ ==> (strings_view(self.items@).contains(x) <==> ov.contains(x)),
                forall|x: Seq<char>|
                    strings_view(self.items@).contains(x) ==> ov.contains(x),
            decreases self.items.len() - i,
        {
            if str_eq(self.items[i].as_str(), key) {
                let ghost before = strings_view(self.items@);
                self.items.remove(i);
                proof {
                    let after = strings_view(self.items@);
                    assert(after =~= before.remove(i as int));
                    assert forall|x: Seq<char>| x != key@ implies (after.contains(x)
                        <==> before.contains(x)) by {
                        if before.contains(x) {
                            let j = choose|j: int| 0 <= j < before.len() && before[j] == x;
                            if j < i {
                                assert(after[j] == x);
                            } else {
                                assert(j != i);
                                assert(after[j - 1] == x);
                            }
                        }
                        if after.contains(x) {
                            let j = choose|j: int| 0 <= j < after.len() && after[j] == x;
                            if j < i {
                                assert(before[j] == x);
                            } else {
                                assert(before[j + 1] == x);
                            }
                        }
                    }
                    assert forall|x: Seq<char>| after.contains(x) implies ov.contains(x) by {
                        let j = choose|j: int| 0 <= j < after.len() && after[j] == x;
                        if j < i {
                            assert(before[j] == x);
                        } else {
                            assert(before[j + 1] == x);
                        }
                    }
                }
            } else {
                i += 1;
            }
        }
        proof {
            let v = strings_view(self.items@);
            assert(!v.contains(key@));
            assert(v.to_set() =~= ov.to_set().remove(key@));
        }
    }

    /// Adds `key` if absent, removes it if present.
    pub fn toggle(&mut self, key: String)
        ensures
            final(self)@ == (if old(self)@.contains(key@) {
                old(self)@.remove(key@)
            } else {
                old(self)@.insert(key@)
            }),
    {
        if self.contains(key.as_str()) {
            self.remove(key.as_str());
        } else {
            self.insert(key);
        }
    }
}

/// A map from setting keys to on/off switches.
pub struct Settings {
    entries: Vec<(String, bool)>,
}

/// The map of a list of entries: each key maps to the switch of its first entry.
pub closed spec fn entries_map(es: Seq<(String, bool)>) -> Map<Seq<char>, bool> {
    Map::new(
        |k: Seq<char>| first_where(es, entry_has_key(k)) is Some,
        |k: Seq<char>| es[first_where(es, entry_has_key(k))->0].1,
    )
}

/// The entry has key `k`.
pub open spec fn entry_has_key(k: Seq<char>) -> spec_fn((String, bool)) -> bool {
    |e: (String, bool)| e.0@ == k
}

impl View for Settings {
    type V = Map<Seq<char>, bool>;

    closed spec fn view(&self) -> Map<Seq<char>, bool> {
        entries_map(self.entries@)
    }
}

impl Settings {
    /// No settings.
    pub fn new() -> (r: Settings)
        ensures
            r@ == Map::<Seq<char>, bool>::empty(),
    {
        let r = Settings { entries: Vec::new() };
        proof {
            assert forall|k: Seq<char>| !r@.dom().contains(k) by {
                lemma_first_where(r.entries@, entry_has_key(k));
            }
            assert(r@ =~= Map::<Seq<char>, bool>::empty());
        }
        r
    }

    /// Index of the entry with key `key`.
    fn find(&self, key: &str) -> (r: Option<usize>)
        ensures
            r matches Some(i) ==> i < self.entries.len() && first_where(self.entries@, entry_has_key(key@)) == Some(i as int),
            r is None ==> first_where(self.entries@, entry_has_key(key@)) is None,
    {
        let mut i: usize = 0;
        while i < self.entries.len()
            invariant
                i <= self.entries.len(),
                forall|j: int| 0 <= j < i ==> !entry_has_key(key@)(#[trigger] self.entries@[j]),
            decreases self.entries.len() - i,
        {
            if str_eq(self.entries[i].0.as_str(), key) {
                proof {
                    lemma_first_where_is(self.entries@, entry_has_key(key@), i as int);
                }
                return Some(i);
            }
            i += 1;
        }
        proof {
            lemma_first_where_none(self.entries@, entry_has_key(key@));
        }
        None
    }

    /// The switch of `key`, if the key is known.
    pub fn get(&self, key: &str) -> (r: Option<bool>)
        ensures
            r == (if self@.dom().contains(key@) {
                Some(self@[key@])
            } else {
                None::<bool>
            }),
    {
        match self.find(key) {
            Some(i) => Some(self.entries[i].1),
            None => None,
        }
    }

    /// Sets `key` to `value`.
    pub fn insert(&mut self, key: String, value: bool)
        ensures
            final(self)@ == old(self)@.insert(key@, value),
    {
        let ghost old_entries = self.entries@;
        let ghost k0 = key@;
        match self.find(key.as_str()) {
            Some(i) => {
                self.entries.set(i, (key, value));
                proof {
                    self.lemma_update_view(old_entries, i as int, k0, value);
                }
            },
            None => {
                self.entries.push((key, value));
                proof {
                    self.lemma_push_view(old_entries, k0, value);
                }
            },
        }
    }

    /// Flips the switch of `key` if the key is known; unknown keys are ignored.
    pub fn toggle(&mut self, key: &str)
        ensures
            final(self)@ == (if old(self)@.dom().contains(key@) {
                old(self)@.insert(key@, !old(self)@[key@])
            } else {
                old(self)@
            }),
    {
        let ghost old_entries = self.entries@;
        match self.find(key) {
            Some(i) => {
                proof {
                    lemma_first_where(self.entries@, entry_has_key(key@));
                }
                let k = self.entries[i].0.clone();
                let v = self.entries[i].1;
                self.entries.set(i, (k, !v));
                proof {
                    self.lemma_update_view(old_entries, i as int, key@, !v);
                }
            },
            None => {},
        }
    }

    proof fn lemma_update_view(
        &self,
        old_entries: Seq<(String, bool)>,
        i: int,
        k0: Seq<char>,
        value: bool,
    )
        requires
            first_where(old_entries, entry_has_key(k0)) == Some(i),
            self.entries@ == old_entries.update(i, self.entries@[i]),
            self.entries@[i].0@ == k0,
            self.entries@[i].1 == value,
        ensures
            self@ == entries_map(old_entries).insert(k0, value),
    {
        lemma_first_where(old_entries, entry_has_key(k0));
        assert forall|k: Seq<char>|
            first_where(self.entries@, entry_has_key(k)) == first_where(
                old_entries,
                entry_has_key(k),
            ) by {
            lemma_first_where(old_entries, entry_has_key(k));
            lemma_first_where(self.entries@, entry_has_key(k));
            match first_where(old_entries, entry_has_key(k)) {
                Some(j) => {
                    assert(entry_has_key(k)(self.entries@[j]));
                    assert forall|m: int| 0 <= m < j implies !entry_has_key(k)(
                        #[trigger] self.entries@[m],
                    ) by {
                        assert(!entry_has_key(k)(old_entries[m]));
                    }
                    lemma_first_where_is(self.entries@, entry_has_key(k), j);
                },
                None => {
                    assert forall|m: int| 0 <= m < self.entries@.len() implies !entry_has_key(k)(
                        #[trigger] self.entries@[m],
                    ) by {
                        assert(!entry_has_key(k)(old_entries[m]));
                    }
                    lemma_first_where_none(self.entries@, entry_has_key(k));
                },
            }
        }
        assert forall|k: Seq<char>| self@.dom().contains(k) implies self@[k] == entries_map(old_entries).insert(
            k0,
            value,
        )[k] by {
            lemma_first_where(old_entries, entry_has_key(k));
            let j = first_where(old_entries, entry_has_key(k))->0;
            if k != k0 {
                assert(j != i);
                assert(self.entries@[j] == old_entries[j]);
            }
        }
        assert(self@ =~= entries_map(old_entries).insert(k0, value));
    }

    proof fn lemma_push_view(&self, old_entries: Seq<(String, bool)>, k0: Seq<char>, value: bool)
        requires
            first_where(old_entries, entry_has_key(k0)) is None,
            self.entries@ == old_entries.push(self.entries@.last()),
            self.entries@.last().0@ == k0,
            self.entries@.last().1 == value,
        ensures
            self@ == entries_map(old_entries).insert(k0, value),
    {
        let n = old_entries.len() as int;
        lemma_first_where(old_entries, entry_has_key(k0));
        assert forall|k: Seq<char>|
            #![trigger first_where(self.entries@, entry_has_key(k))]
            k != k0 ==> first_where(self.entries@, entry_has_key(k)) == first_where(
                old_entries,
                entry_has_key(k),
            ) by {
            if k != k0 {
                lemma_first_where(old_entries, entry_has_key(k));
                match first_where(old_entries, entry_has_key(k)) {
                    Some(j) => {
                        assert(entry_has_key(k)(self.entries@[j]));
                        assert forall|m: int| 0 <= m < j implies !entry_has_key(k)(
                            #[trigger] self.entries@[m],
                        ) by {
                            assert(!entry_has_key(k)(old_entries[m]));
                        }
                        lemma_first_where_is(self.entries@, entry_has_key(k), j);
                    },
                    None => {
                        assert forall|m: int|
                            0 <= m < self.entries@.len() implies !entry_has_key(k)(
                            #[trigger] self.entries@[m],
                        ) by {
                            if m < n {
                                assert(!entry_has_key(k)(old_entries[m]));
                            }
                        }
                        lemma_first_where_none(self.entries@, entry_has_key(k));
                    },
                }
            }
        }
        assert forall|m: int| 0 <= m < n implies !entry_has_key(k0)(
            #[trigger] self.entries@[m],
        ) by {
            assert(!entry_has_key(k0)(old_entries[m]));
        }
        lemma_first_where_is(self.entries@, entry_has_key(k0), n);
        assert forall|k: Seq<char>| self@.dom().contains(k) implies self@[k] == entries_map(
            old_entries,
        ).insert(k0, value)[k] by {
            if k != k0 {
                lemma_first_where(old_entries, entry_has_key(k));
                let j = first_where(old_entries, entry_has_key(k))->0;
                assert(self.entries@[j] == old_entries[j]);
            }
        }
        assert(self@ =~= entries_map(old_entries).insert(k0, value));
    }
}

} // verus!
