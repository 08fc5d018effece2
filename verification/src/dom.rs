//! Lightweight interactive DOM nodes and their attribute maps.
use vstd::prelude::*;
use vstd::string::*;
use crate::text::{chars_of, eq_ignore_ascii, lowercase, str_eq, str_eq_ignore_ascii, string_of, to_lower, trim, trim_chars};

verus! {

/// Key/value pairs with their string contents.
pub type AttrSeq = Seq<(Seq<char>, Seq<char>)>;

/// The value stored under `k`, if any.
pub open spec fn lookup(s: AttrSeq, k: Seq<char>) -> Option<Seq<char>>
    decreases s.len(),
{
    if s.len() == 0 {
        None
    } else if s[0].0 == k {
        Some(s[0].1)
    } else {
        lookup(s.drop_first(), k)
    }
}

/// No key occurs twice.
pub open spec fn keys_distinct(s: AttrSeq) -> bool {
    forall|i: int, j: int| 0 <= i < s.len() && 0 <= j < s.len() && i != j ==> s[i].0 != s[j].0
}

/// Map insertion: replace the value of an existing key in place, else append.
pub open spec fn attr_insert(s: AttrSeq, k: Seq<char>, v: Seq<char>) -> AttrSeq {
    if exists|i: int| 0 <= i < s.len() && s[i].0 == k {
        let i = choose|i: int| 0 <= i < s.len() && s[i].0 == k;
        s.update(i, (k, v))
    } else {
        s.push((k, v))
    }
}

pub proof fn lemma_lookup_index(s: AttrSeq, k: Seq<char>, i: int)
    requires
        keys_distinct(s),
        0 <= i < s.len(),
        s[i].0 == k,
    ensures
        lookup(s, k) == Some(s[i].1),
    decreases s.len(),
{
    if i > 0 {
        assert(s[0].0 != k);
        let t = s.drop_first();
        assert forall|a: int, b: int| 0 <= a < t.len() && 0 <= b < t.len() && a != b implies t[a].0 != t[b].0 by {
            assert(t[a] == s[a + 1]);
            assert(t[b] == s[b + 1]);
        }
        lemma_lookup_index(t, k, i - 1);
    }
}

pub proof fn lemma_lookup_absent(s: AttrSeq, k: Seq<char>)
    requires
        forall|i: int| 0 <= i < s.len() ==> s[i].0 != k,
    ensures
        lookup(s, k) == None::<Seq<char>>,
    decreases s.len(),
{
    if s.len() > 0 {
        let t = s.drop_first();
        assert forall|i: int| 0 <= i < t.len() implies t[i].0 != k by {
            assert(t[i] == s[i + 1]);
        }
        lemma_lookup_absent(t, k);
    }
}

/// A string-keyed map with each key present at most once, in insertion order
/// (attribute maps of DOM nodes, choice criteria).
#[derive(Debug)]
pub struct StrMap {
    entries: Vec<(String, String)>,
}

impl StrMap {
    pub closed spec fn view(&self) -> AttrSeq {
        self.entries@.map_values(|p: (String, String)| (p.0@, p.1@))
    }

    #[verifier::type_invariant]
    closed spec fn inv(&self) -> bool {
        keys_distinct(self.view())
    }

    /// The value stored under `k`.
    pub open spec fn get_spec(&self, k: Seq<char>) -> Option<Seq<char>> {
        lookup(self.view(), k)
    }

    /// Exposes the invariant of a live map.
    pub fn distinct_keys(&self)
        ensures
            keys_distinct(self.view()),
    {
        proof {
            use_type_invariant(self);
        }
    }

    pub fn new() -> (m: Self)
        ensures
            m.view() == Seq::<(Seq<char>, Seq<char>)>::empty(),
    {
        let m = StrMap { entries: Vec::new() };
        assert(m.view() =~= Seq::<(Seq<char>, Seq<char>)>::empty());
        m
    }

    /// A copy with the same contents.
    pub fn duplicate(&self) -> (r: Self)
        ensures
            r.view() == self.view(),
    {
        proof {
            use_type_invariant(self);
        }
        let n = self.entries.len();
        let mut v: Vec<(String, String)> = Vec::new();
        let mut i: usize = 0;
        while i < n
            invariant
                n == self.entries@.len(),
                i <= n,
                v@.len() == i,
                forall|j: int| 0 <= j < i ==> (#[trigger] v@[j]).0@ == self.entries@[j].0@ && v@[j].1@ == self.entries@[j].1@,
            decreases n - i,
        {
            let p = &self.entries[i];
            v.push((p.0.clone(), p.1.clone()));
            i += 1;
        }
        proof {
            assert(v@.map_values(|p: (String, String)| (p.0@, p.1@)) =~= self.view());
        }
        StrMap { entries: v }
    }

    pub fn len(&self) -> (n: usize)
        ensures
            n == self.view().len(),
    {
        self.entries.len()
    }

    /// The `i`-th key and value.
    pub fn entry(&self, i: usize) -> (r: (&str, &str))
        requires
            i < self.view().len(),
        ensures
            r.0@ == self.view()[i as int].0,
            r.1@ == self.view()[i as int].1,
    {
        let p = &self.entries[i];
        (p.0.as_str(), p.1.as_str())
    }

    /// Position of key `k`, if present.
    pub fn find(&self, k: &str) -> (r: Option<usize>)
        ensures
            match r {
                Some(i) => i < self.view().len() && self.view()[i as int].0 == k@,
                None => forall|i: int| 0 <= i < self.view().len() ==> self.view()[i].0 != k@,
            },
    {
        let n = self.entries.len();
        let mut i: usize = 0;
        while i < n
            invariant
                n == self.view().len(),
                i <= n,
                forall|j: int| 0 <= j < i ==> self.view()[j].0 != k@,
            decreases n - i,
        {
            if str_eq(self.entries[i].0.as_str(), k) {
                return Some(i);
            }
            i += 1;
        }
        None
    }

    /// `HashMap::get`.
    pub fn get(&self, k: &str) -> (r: Option<&str>)
        ensures
            match r {
                Some(v) => self.get_spec(k@) == Some(v@),
                None => self.get_spec(k@) == None::<Seq<char>>,
            },
    {
        proof {
            use_type_invariant(self);
        }
        match self.find(k) {
            Some(i) => {
                proof {
                    lemma_lookup_index(self.view(), k@, i as int);
                }
                Some(self.entries[i].1.as_str())
            },
            None => {
                proof {
                    lemma_lookup_absent(self.view(), k@);
                }
                None
            },
        }
    }

    /// `HashMap::contains_key`.
    pub fn contains_key(&self, k: &str) -> (b: bool)
        ensures
            b == (self.get_spec(k@) is Some),
    {
        self.get(k).is_some()
    }

    /// `HashMap::insert` (the old value is dropped).
    pub fn insert(&mut self, k: &str, v: &str)
        ensures
            final(self).view() == attr_insert(old(self).view(), k@, v@),
    {
        proof {
            use_type_invariant(&*self);
        }
        let ghost s = self.view();
        let pos = self.find(k);
        let key = String::from_str(k);
        let val = String::from_str(v);
        match pos {
            Some(i) => {
                let mut entries: Vec<(String, String)> = Vec::new();
                std::mem::swap(&mut entries, &mut self.entries);
                entries.set(i, (key, val));
                proof {
                    let t = entries@.map_values(|p: (String, String)| (p.0@, p.1@));
                    assert(t =~= s.update(i as int, (k@, v@)));
                    let c = choose|j: int| 0 <= j < s.len() && s[j].0 == k@;
                    assert(c == i) by {
                        if c != i {
                            assert(s[c].0 == s[i as int].0);
                        }
                    }
                    assert forall|a: int, b: int| 0 <= a < t.len() && 0 <= b < t.len() && a != b implies t[a].0 != t[b].0 by {
                        if a != i && b != i {
                            assert(s[a].0 != s[b].0);
                        } else if a == i {
                            assert(s[b].0 != s[i as int].0);
                        } else {
                            assert(s[a].0 != s[i as int].0);
                        }
                    }
                }
                self.entries = entries;
            },
            None => {
                let mut entries: Vec<(String, String)> = Vec::new();
                std::mem::swap(&mut entries, &mut self.entries);
                entries.push((key, val));
                proof {
                    let t = entries@.map_values(|p: (String, String)| (p.0@, p.1@));
                    assert(t =~= s.push((k@, v@)));
                    assert forall|a: int, b: int| 0 <= a < t.len() && 0 <= b < t.len() && a != b implies t[a].0 != t[b].0 by {
                        if a < s.len() && b < s.len() {
                            assert(s[a].0 != s[b].0);
                        }
                    }
                }
                self.entries = entries;
            },
        }
    }
}

impl Clone for StrMap {
    fn clone(&self) -> (r: Self)
        ensures
            r.view() == self.view(),
    {
        self.duplicate()
    }
}

/// Reading back an attribute after inserting it gives the inserted value;
/// every other key keeps its value.
pub proof fn law_attribute_read_after_write(s: AttrSeq, k: Seq<char>, v: Seq<char>, k2: Seq<char>)
    requires
        keys_distinct(s),
    ensures
        lookup(attr_insert(s, k, v), k) == Some(v),
        k2 != k ==> lookup(attr_insert(s, k, v), k2) == lookup(s, k2),
{
    let t = attr_insert(s, k, v);
    if exists|i: int| 0 <= i < s.len() && s[i].0 == k {
        let i = choose|i: int| 0 <= i < s.len() && s[i].0 == k;
        assert(t == s.update(i, (k, v)));
        assert(keys_distinct(t)) by {
            assert forall|a: int, b: int| 0 <= a < t.len() && 0 <= b < t.len() && a != b implies t[a].0 != t[b].0 by {
                if a != i && b != i {
                    assert(s[a].0 != s[b].0);
                } else if a == i {
                    assert(s[b].0 != s[i].0);
                } else {
                    assert(s[a].0 != s[i].0);
                }
            }
        }
        lemma_lookup_index(t, k, i);
        if k2 != k {
            if exists|j: int| 0 <= j < s.len() && s[j].0 == k2 {
                let j = choose|j: int| 0 <= j < s.len() && s[j].0 == k2;
                lemma_lookup_index(s, k2, j);
                lemma_lookup_index(t, k2, j);
            } else {
                lemma_lookup_absent(s, k2);
                assert forall|j: int| 0 <= j < t.len() implies t[j].0 != k2 by {
                    if j != i {
                        assert(t[j] == s[j]);
                    }
                }
                lemma_lookup_absent(t, k2);
            }
        }
    } else {
        assert(t == s.push((k, v)));
        assert(keys_distinct(t)) by {
            assert forall|a: int, b: int| 0 <= a < t.len() && 0 <= b < t.len() && a != b implies t[a].0 != t[b].0 by {
                if a < s.len() && b < s.len() {
                    assert(s[a].0 != s[b].0);
                }
            }
        }
        lemma_lookup_index(t, k, s.len() as int);
        if k2 != k {
            if exists|j: int| 0 <= j < s.len() && s[j].0 == k2 {
                let j = choose|j: int| 0 <= j < s.len() && s[j].0 == k2;
                lemma_lookup_index(s, k2, j);
                lemma_lookup_index(t, k2, j);
            } else {
                lemma_lookup_absent(s, k2);
                lemma_lookup_absent(t, k2);
            }
        }
    }
}

/// The string contents of a DOM node.
pub struct NodeView {
    pub node_id: Seq<char>,
    pub tag: Seq<char>,
    pub text: Seq<char>,
    pub attrs: AttrSeq,
}

/// A lightweight interactive DOM node: identity, tag, visible text, attributes.
#[derive(Debug, Clone)]
pub struct DOMElementNode {
    pub node_id: String,
    pub tag: String,
    pub text: String,
    pub attributes: StrMap,
}

/// `lowercase(tag)` is one of the clickable tags.
pub open spec fn clickable_tag(ltag: Seq<char>) -> bool {
    ltag == "button"@ || ltag == "a"@
}

pub open spec fn input_tag(ltag: Seq<char>) -> bool {
    ltag == "input"@ || ltag == "textarea"@ || ltag == "select"@
}

/// The clickability rule: a button or link tag, an ARIA button or link role, or an `onclick` handler.
pub open spec fn spec_is_clickable(n: NodeView) -> bool {
    ||| clickable_tag(lowercase(n.tag))
    ||| (match lookup(n.attrs, "role"@) {
        Some(role) => eq_ignore_ascii(role, "button"@) || eq_ignore_ascii(role, "link"@),
        None => false,
    })
    ||| lookup(n.attrs, "onclick"@) is Some
}

pub open spec fn spec_is_input(n: NodeView) -> bool {
    input_tag(lowercase(n.tag))
}

/// The one-line description of a node given to the engines.
pub open spec fn spec_summary(n: NodeView) -> Seq<char> {
    let tag = lowercase(n.tag);
    let text = trim(n.text);
    if text.len() == 0 {
        match lookup(n.attrs, "aria-label"@) {
            Some(aria) => "<"@ + tag + " aria='"@ + aria + "'>"@,
            None => match lookup(n.attrs, "placeholder"@) {
                Some(ph) => "<"@ + tag + " placeholder='"@ + ph + "'>"@,
                None => "<"@ + tag + ">"@,
            },
        }
    } else {
        "<"@ + tag + "> "@ + text
    }
}

impl View for DOMElementNode {
    type V = NodeView;

    open spec fn view(&self) -> NodeView {
        NodeView {
            node_id: self.node_id@,
            tag: self.tag@,
            text: self.text@,
            attrs: self.attributes.view(),
        }
    }
}

impl DOMElementNode {
    pub fn new(node_id: &str, tag: &str, text: &str) -> (r: Self)
        ensures
            r@.node_id == node_id@,
            r@.tag == tag@,
            r@.text == text@,
            r@.attrs == Seq::<(Seq<char>, Seq<char>)>::empty(),
    {
        DOMElementNode {
            node_id: String::from_str(node_id),
            tag: String::from_str(tag),
            text: String::from_str(text),
            attributes: StrMap::new(),
        }
    }

    /// Builder: sets an attribute (replacing an earlier value of the same key).
    pub fn with_attribute(self, key: &str, value: &str) -> (r: Self)
        ensures
            r@.node_id == self@.node_id,
            r@.tag == self@.tag,
            r@.text == self@.text,
            r@.attrs == attr_insert(self@.attrs, key@, value@),
    {
        let mut s = self;
        s.attributes.insert(key, value);
        s
    }

    pub fn get_attribute(&self, key: &str) -> (r: Option<&str>)
        ensures
            match r {
                Some(v) => lookup(self@.attrs, key@) == Some(v@),
                None => lookup(self@.attrs, key@) == None::<Seq<char>>,
            },
    {
        self.attributes.get(key)
    }

    /// A copy with the same contents.
    pub fn duplicate(&self) -> (r: Self)
        ensures
            r@ == self@,
    {
        DOMElementNode {
            node_id: self.node_id.clone(),
            tag: self.tag.clone(),
            text: self.text.clone(),
            attributes: self.attributes.duplicate(),
        }
    }

    pub fn is_clickable(&self) -> (b: bool)
        ensures
            b == spec_is_clickable(self@),
    {
        let tag = to_lower(self.tag.as_str());
        if str_eq(tag.as_str(), "button") || str_eq(tag.as_str(), "a") {
            return true;
        }
        if let Some(role) = self.get_attribute("role") {
            if str_eq_ignore_ascii(role, "button") || str_eq_ignore_ascii(role, "link") {
                return true;
            }
        }
        self.attributes.contains_key("onclick")
    }

    pub fn is_input(&self) -> (b: bool)
        ensures
            b == spec_is_input(self@),
    {
        let tag = to_lower(self.tag.as_str());
        str_eq(tag.as_str(), "input") || str_eq(tag.as_str(), "textarea") || str_eq(tag.as_str(), "select")
    }

    pub fn semantic_summary(&self) -> (r: String)
        ensures
            r@ == spec_summary(self@),
    {
        let tag = to_lower(self.tag.as_str());
        let raw = chars_of(self.text.as_str());
        let text = trim_chars(&raw);
        let mut out = String::from_str("<");
        out.append(tag.as_str());
        if text.len() == 0 {
            if let Some(aria) = self.get_attribute("aria-label") {
                out.append(" aria='");
                out.append(aria);
                out.append("'>");
            } else if let Some(ph) = self.get_attribute("placeholder") {
                out.append(" placeholder='");
                out.append(ph);
                out.append("'>");
            } else {
                out.append(">");
            }
        } else {
            out.append("> ");
            let t = string_of(&text);
            out.append(t.as_str());
        }
        out
    }
}

} // verus!
