//! A map of header names to values, kept as an ordered list of fields in which
//! no name occurs twice.

use vstd::prelude::*;

verus! {

/// Header fields of a request or a response. Names are compared exactly.
pub struct Headers {
    entries: Vec<(String, String)>,
}

impl Headers {
    /// No two fields carry the same name.
    #[verifier::type_invariant]
    closed spec fn names_unique(self) -> bool {
        forall|i: int, j: int|
            0 <= i < j < self.entries.len() ==> #[trigger] self.entries[i].0@
                != #[trigger] self.entries[j].0@
    }

    closed spec fn has_name(self, name: Seq<char>) -> bool {
        exists|i: int| 0 <= i < self.entries.len() && #[trigger] self.entries[i].0@ == name
    }

    closed spec fn index_of(self, name: Seq<char>) -> int {
        choose|i: int| 0 <= i < self.entries.len() && #[trigger] self.entries[i].0@ == name
    }

    proof fn lemma_entry_in_view(self, i: int)
        requires
            self.names_unique(),
            0 <= i < self.entries.len(),
        ensures
            self@.contains_key(self.entries[i].0@),
            self@[self.entries[i].0@] == self.entries[i].1@,
    {
        let name = self.entries[i].0@;
        assert(self.has_name(name));
        let j = self.index_of(name);
        if j != i {
            if i < j {
                assert(self.entries[i].0@ != self.entries[j].0@);
            } else {
                assert(self.entries[j].0@ != self.entries[i].0@);
            }
        }
    }
}

impl View for Headers {
    type V = Map<Seq<char>, Seq<char>>;

    closed spec fn view(&self) -> Map<Seq<char>, Seq<char>> {
        Map::new(|name: Seq<char>| self.has_name(name), |name: Seq<char>| self.entries[self.index_of(name)].1@)
    }
}

impl Headers {
    /// An empty header map.
    pub fn new() -> (h: Headers)
        ensures
            h@ == Map::<Seq<char>, Seq<char>>::empty(),
    {
        let h = Headers { entries: Vec::new() };
        assert(h@ =~= Map::<Seq<char>, Seq<char>>::empty());
        h
    }

    /// Position of the field called `name`, if there is one.
    fn find(&self, name: &String) -> (r: Option<usize>)
        ensures
            match r {
                Some(i) => i < self.entries.len() && self.entries[i as int].0@ == name@,
                None => !self.has_name(name@),
            },
    {
        let mut i: usize = 0;
        while i < self.entries.len()
            invariant
                i <= self.entries.len(),
                forall|j: int| 0 <= j < i ==> #[trigger] self.entries[j].0@ != name@,
            decreases self.entries.len() - i,
        {
            if self.entries[i].0 == *name {
                return Some(i);
            }
            i = i + 1;
        }
        None
    }

    /// The value of the field called `name`.
    pub fn get(&self, name: &str) -> (r: Option<&String>)
        ensures
            match r {
                Some(v) => self@.contains_key(name@) && v@ == self@[name@],
                None => !self@.contains_key(name@),
            },
    {
        proof {
            use_type_invariant(self);
        }
        let key = String::from_str(name);
        match self.find(&key) {
            Some(i) => {
                proof {
                    self.lemma_entry_in_view(i as int);
                }
                Some(&self.entries[i].1)
            },
            None => None,
        }
    }

    /// Whether a field called `name` is present.
    pub fn contains_key(&self, name: &str) -> (r: bool)
        ensures
            r == self@.contains_key(name@),
    {
        proof {
            use_type_invariant(self);
        }
        let key = String::from_str(name);
        self.find(&key).is_some()
    }

    /// Sets the field `name` to `value`, replacing an earlier value of that field.
    pub fn insert(&mut self, name: &str, value: String)
        ensures
            final(self)@ == old(self)@.insert(name@, value@),
    {
        proof {
            use_type_invariant(&*self);
        }
        let key = String::from_str(name);
        let ghost old_h = *self;
        let found = self.find(&key);
        let mut entries = Vec::new();
        std::mem::swap(&mut entries, &mut self.entries);
        match found {
            Some(i) => {
                entries.set(i, (key, value));
            },
            None => {
                entries.push((key, value));
            },
        }
        let ghost new_h = Headers { entries: entries };
        proof {
            assert(new_h.names_unique()) by {
                assert forall|a: int, b: int| 0 <= a < b < new_h.entries.len() implies
                    #[trigger] new_h.entries[a].0@ != #[trigger] new_h.entries[b].0@ by {
                    if a < old_h.entries.len() && b < old_h.entries.len() {
                        assert(old_h.entries[a].0@ != old_h.entries[b].0@);
                    } else {
                        assert(old_h.entries[a].0@ == new_h.entries[a].0@);
                    }
                }
            }
            let target = old_h@.insert(name@, value@);
            assert forall|k: Seq<char>| #[trigger] new_h@.contains_key(k) == target.contains_key(k) by {
                if new_h.has_name(k) {
                    let j = new_h.index_of(k);
                    if k != name@ {
                        assert(old_h.entries[j].0@ == k);
                    }
                }
                if old_h.has_name(k) {
                    let j = old_h.index_of(k);
                    if k != name@ {
                        assert(new_h.entries[j].0@ == k);
                    }
                }
                if k == name@ {
                    match found {
                        Some(i) => assert(new_h.entries[i as int].0@ == k),
                        None => assert(new_h.entries[old_h.entries.len() as int].0@ == k),
                    }
                }
            }
            assert forall|k: Seq<char>| #[trigger] new_h@.contains_key(k) implies new_h@[k] == target[k] by {
                let j = new_h.index_of(k);
                new_h.lemma_entry_in_view(j);
                if k != name@ {
                    assert(old_h.entries[j].0@ == k);
                    old_h.lemma_entry_in_view(j);
                }
            }
            assert(new_h@ =~= target);
        }
        self.entries = entries;
    }
    /// All fields as (name, value) pairs, each name once.
    pub fn to_vec(&self) -> (v: Vec<(String, String)>)
        ensures
            forall|i: int|
                0 <= i < v.len() ==> #[trigger] self@.contains_key(v[i].0@) && self@[v[i].0@]
                    == v[i].1@,
            forall|name: Seq<char>| #[trigger]
                self@.contains_key(name) ==> exists|i: int| 0 <= i < v.len() && v[i].0@ == name,
            forall|i: int, j: int| 0 <= i < j < v.len() ==> #[trigger] v[i].0@ != #[trigger] v[j].0@,
    {
        proof {
            use_type_invariant(self);
        }
        let mut v: Vec<(String, String)> = Vec::new();
        let mut i: usize = 0;
        while i < self.entries.len()
            invariant
                self.names_unique(),
                i <= self.entries.len(),
                v.len() == i,
                forall|j: int| 0 <= j < i ==> #[trigger] v[j].0@ == self.entries[j].0@ && v[j].1@
                    == self.entries[j].1@,
            decreases self.entries.len() - i,
        {
            let name = self.entries[i].0.clone();
            let value = self.entries[i].1.clone();
            v.push((name, value));
            i = i + 1;
        }
        proof {
            assert forall|j: int| 0 <= j < v.len() implies #[trigger] self@.contains_key(v[j].0@)
                && self@[v[j].0@] == v[j].1@ by {
                self.lemma_entry_in_view(j);
            }
            assert forall|name: Seq<char>| #[trigger]
                self@.contains_key(name) implies exists|j: int| 0 <= j < v.len() && v[j].0@ == name by {
                let j = self.index_of(name);
                assert(v[j].0@ == name);
            }
            assert forall|a: int, b: int| 0 <= a < b < v.len() implies #[trigger] v[a].0@
                != #[trigger] v[b].0@ by {
                assert(self.entries[a].0@ != self.entries[b].0@);
            }
        }
        v
    }
}

/// What a read gives back of a write: after setting `name` to `value`, reading
/// `name` gives `value`, and every other field reads as before.
pub proof fn law_get_after_insert(
    h: Map<Seq<char>, Seq<char>>,
    name: Seq<char>,
    value: Seq<char>,
    other: Seq<char>,
)
    requires
        other != name,
    ensures
        h.insert(name, value).contains_key(name),
        h.insert(name, value)[name] == value,
        h.insert(name, value).contains_key(other) == h.contains_key(other),
        h.contains_key(other) ==> h.insert(name, value)[other] == h[other],
{
}

/// Setting a field twice keeps only the second value.
pub proof fn law_insert_overwrites(
    h: Map<Seq<char>, Seq<char>>,
    name: Seq<char>,
    first: Seq<char>,
    second: Seq<char>,
)
    ensures
        h.insert(name, first).insert(name, second) == h.insert(name, second),
{
    assert(h.insert(name, first).insert(name, second) =~= h.insert(name, second));
}

} // verus!
