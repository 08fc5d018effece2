//! Tables keyed by text fragments: a value is found for a text when the text
//! contains its key. Inserting an existing key replaces its value in place;
//! lookups go through the keys in the order they were first inserted.
use vstd::prelude::*;
use vstd::string::*;
use crate::text::{contains, str_contains, str_eq};

verus! {

/// The position of key `k`, if present (the first one).
pub open spec fn key_index<T>(s: Seq<(Seq<char>, T)>, k: Seq<char>) -> Option<int>
    decreases s.len(),
{
    if s.len() == 0 {
        None
    } else {
        match key_index(s.drop_last(), k) {
            Some(i) => Some(i),
            None => if s.last().0 == k {
                Some(s.len() - 1)
            } else {
                None
            },
        }
    }
}

/// Map insertion: an existing key gets the new value in place; a new key is appended.
pub open spec fn table_insert<T>(s: Seq<(Seq<char>, T)>, k: Seq<char>, v: T) -> Seq<(Seq<char>, T)> {
    match key_index(s, k) {
        Some(i) => s.update(i, (k, v)),
        None => s.push((k, v)),
    }
}

/// The position of the first key, in table order, that `text` contains.
pub open spec fn first_key_in<T>(s: Seq<(Seq<char>, T)>, text: Seq<char>) -> Option<int>
    decreases s.len(),
{
    if s.len() == 0 {
        None
    } else {
        match first_key_in(s.drop_last(), text) {
            Some(i) => Some(i),
            None => if contains(text, s.last().0) {
                Some(s.len() - 1)
            } else {
                None
            },
        }
    }
}

/// No key occurs twice.
pub open spec fn distinct_keys<T>(s: Seq<(Seq<char>, T)>) -> bool {
    forall|i: int, j: int| 0 <= i < s.len() && 0 <= j < s.len() && i != j ==> s[i].0 != s[j].0
}

/// The table with `f` applied to every value.
pub open spec fn map_vals<T, U>(s: Seq<(Seq<char>, T)>, f: spec_fn(T) -> U) -> Seq<(Seq<char>, U)> {
    s.map_values(|e: (Seq<char>, T)| (e.0, f(e.1)))
}

pub proof fn lemma_key_index<T>(s: Seq<(Seq<char>, T)>, k: Seq<char>)
    ensures
        match key_index(s, k) {
            Some(i) => 0 <= i < s.len() && s[i].0 == k && forall|j: int| 0 <= j < i ==> s[j].0 != k,
            None => forall|j: int| 0 <= j < s.len() ==> s[j].0 != k,
        },
    decreases s.len(),
{
    if s.len() > 0 {
        lemma_key_index(s.drop_last(), k);
        assert forall|j: int| 0 <= j < s.len() - 1 implies s.drop_last()[j] == s[j] by {}
    }
}

pub proof fn lemma_first_key_in<T>(s: Seq<(Seq<char>, T)>, text: Seq<char>)
    ensures
        match first_key_in(s, text) {
            Some(i) => 0 <= i < s.len() && contains(text, s[i].0) && forall|j: int|
                0 <= j < i ==> !contains(text, #[trigger] s[j].0),
            None => forall|j: int| 0 <= j < s.len() ==> !contains(text, #[trigger] s[j].0),
        },
    decreases s.len(),
{
    if s.len() > 0 {
        lemma_first_key_in(s.drop_last(), text);
        assert forall|j: int| 0 <= j < s.len() - 1 implies s.drop_last()[j] == s[j] by {}
    }
}

/// Applying a function to the values moves no key.
pub proof fn lemma_map_keys<T, U>(s: Seq<(Seq<char>, T)>, f: spec_fn(T) -> U, k: Seq<char>, text: Seq<char>)
    ensures
        key_index(map_vals(s, f), k) == key_index(s, k),
        first_key_in(map_vals(s, f), text) == first_key_in(s, text),
        distinct_keys(s) ==> distinct_keys(map_vals(s, f)),
    decreases s.len(),
{
    if s.len() > 0 {
        assert(map_vals(s, f).drop_last() =~= map_vals(s.drop_last(), f));
        lemma_map_keys(s.drop_last(), f, k, text);
    }
}

/// Applying a function to the values commutes with insertion.
pub proof fn lemma_map_insert<T, U>(s: Seq<(Seq<char>, T)>, f: spec_fn(T) -> U, k: Seq<char>, v: T)
    ensures
        map_vals(table_insert(s, k, v), f) == table_insert(map_vals(s, f), k, f(v)),
{
    lemma_map_keys(s, f, k, Seq::<char>::empty());
    lemma_key_index(s, k);
    assert(map_vals(table_insert(s, k, v), f) =~= table_insert(map_vals(s, f), k, f(v)));
}

/// Inserting keeps the keys distinct.
pub proof fn lemma_insert_distinct<T>(s: Seq<(Seq<char>, T)>, k: Seq<char>, v: T)
    requires
        distinct_keys(s),
    ensures
        distinct_keys(table_insert(s, k, v)),
{
    lemma_key_index(s, k);
    let t = table_insert(s, k, v);
    match key_index(s, k) {
        Some(i) => {
            assert forall|a: int, b: int| 0 <= a < t.len() && 0 <= b < t.len() && a != b implies t[a].0 != t[b].0 by {
                if a != i && b != i {
                    assert(s[a].0 != s[b].0);
                } else if a == i {
                    assert(s[b].0 != s[i].0);
                } else {
                    assert(s[a].0 != s[i].0);
                }
            }
        },
        None => {
            assert forall|a: int, b: int| 0 <= a < t.len() && 0 <= b < t.len() && a != b implies t[a].0 != t[b].0 by {
                if a < s.len() && b < s.len() {
                    assert(s[a].0 != s[b].0);
                }
            }
        },
    }
}

/// A value found for a text: the first key of the table contained in a text
/// finds its own value, whatever was inserted under other keys.
pub proof fn lemma_prefix_first_key<T>(s: Seq<(Seq<char>, T)>, text: Seq<char>, k: int)
    requires
        0 <= k <= s.len(),
    ensures
        first_key_in(s.subrange(0, k), text) is Some ==> first_key_in(s, text) == first_key_in(s.subrange(0, k), text),
    decreases s.len() - k,
{
    if k < s.len() {
        lemma_prefix_first_key(s, text, k + 1);
        let t = s.subrange(0, k + 1);
        assert(t.drop_last() =~= s.subrange(0, k));
    } else {
        assert(s.subrange(0, k) =~= s);
    }
}

/// Read-back: after a value is set for a fragment, a text containing that
/// fragment and no other fragment of the table finds that value.
pub proof fn law_lookup_after_insert<T>(s: Seq<(Seq<char>, T)>, k: Seq<char>, v: T, text: Seq<char>)
    requires
        distinct_keys(s),
        contains(text, k),
        forall|j: int| 0 <= j < s.len() && (#[trigger] s[j]).0 != k ==> !contains(text, s[j].0),
    ensures
        first_key_in(table_insert(s, k, v), text) matches Some(i) && table_insert(s, k, v)[i] == (k, v),
{
    let t = table_insert(s, k, v);
    lemma_key_index(s, k);
    lemma_first_key_in(t, text);
    match key_index(s, k) {
        Some(i) => {
            assert(t[i] == (k, v));
            assert(contains(text, t[i].0));
            match first_key_in(t, text) {
                Some(f) => {
                    if f != i {
                        assert(t[f] == s[f]);
                        assert(s[f].0 != s[i].0);
                    }
                },
                None => {},
            }
        },
        None => {
            let last = s.len() as int;
            assert(t[last] == (k, v));
            assert(contains(text, t[last].0));
            match first_key_in(t, text) {
                Some(f) => {
                    if f != last {
                        assert(t[f] == s[f]);
                    }
                },
                None => {},
            }
        },
    }
}

/// A table keyed by text fragments.
pub struct FragmentTable<T> {
    entries: Vec<(String, T)>,
}

impl<T> View for FragmentTable<T> {
    type V = Seq<(Seq<char>, T)>;

    closed spec fn view(&self) -> Seq<(Seq<char>, T)> {
        self.entries@.map_values(|e: (String, T)| (e.0@, e.1))
    }
}

impl<T> FragmentTable<T> {
    #[verifier::type_invariant]
    closed spec fn wf(self) -> bool {
        distinct_keys(self@)
    }

    pub fn new() -> (t: Self)
        ensures
            t@ == Seq::<(Seq<char>, T)>::empty(),
    {
        let t = FragmentTable { entries: Vec::new() };
        assert(t@ =~= Seq::<(Seq<char>, T)>::empty());
        t
    }

    pub fn len(&self) -> (n: usize)
        ensures
            n == self@.len(),
    {
        self.entries.len()
    }

    fn position(&self, k: &str) -> (r: Option<usize>)
        ensures
            match key_index(self@, k@) {
                Some(i) => r matches Some(j) && j == i,
                None => r is None,
            },
    {
        let n = self.entries.len();
        let mut i: usize = 0;
        while i < n
            invariant
                n == self@.len(),
                i <= n,
                key_index(self@.subrange(0, i as int), k@) is None,
            decreases n - i,
        {
            proof {
                let t = self@.subrange(0, i + 1);
                assert(t.drop_last() =~= self@.subrange(0, i as int));
            }
            if str_eq(self.entries[i].0.as_str(), k) {
                proof {
                    assert(self@[i as int].0 == k@);
                    lemma_key_index(self@, k@);
                    lemma_key_index(self@.subrange(0, i as int), k@);
                    let j = key_index(self@, k@)->0;
                    if j < i {
                        assert(self@.subrange(0, i as int)[j] == self@[j]);
                    }
                }
                return Some(i);
            }
            i += 1;
        }
        proof {
            assert(self@.subrange(0, n as int) =~= self@);
        }
        None
    }

    /// Sets the value of key `k`.
    pub fn insert(&mut self, k: &str, v: T)
        ensures
            final(self)@ == table_insert(old(self)@, k@, v),
    {
        proof {
            use_type_invariant(&*self);
            lemma_insert_distinct(self@, k@, v);
        }
        let ghost s = self@;
        let pos = self.position(k);
        proof {
            lemma_key_index(s, k@);
        }
        let mut entries: Vec<(String, T)> = Vec::new();
        std::mem::swap(&mut entries, &mut self.entries);
        match pos {
            Some(i) => {
                entries.set(i, (String::from_str(k), v));
                assert(entries@.map_values(|e: (String, T)| (e.0@, e.1)) =~= table_insert(s, k@, v));
            },
            None => {
                entries.push((String::from_str(k), v));
                assert(entries@.map_values(|e: (String, T)| (e.0@, e.1)) =~= table_insert(s, k@, v));
            },
        }
        self.entries = entries;
    }

    /// The value of the first key, in table order, that `text` contains.
    pub fn lookup(&self, text: &str) -> (r: Option<&T>)
        ensures
            match first_key_in(self@, text@) {
                Some(i) => r matches Some(x) && *x == self@[i].1,
                None => r is None,
            },
    {
        let n = self.entries.len();
        let mut i: usize = 0;
        while i < n
            invariant
                n == self@.len(),
                i <= n,
                first_key_in(self@.subrange(0, i as int), text@) is None,
            decreases n - i,
        {
            proof {
                let t = self@.subrange(0, i + 1);
                assert(t.drop_last() =~= self@.subrange(0, i as int));
            }
            if str_contains(text, self.entries[i].0.as_str()) {
                proof {
                    lemma_prefix_first_key(self@, text@, i + 1);
                }
                return Some(&self.entries[i].1);
            }
            i += 1;
        }
        proof {
            assert(self@.subrange(0, n as int) =~= self@);
        }
        None
    }
}

} // verus!
