//! Top-K candidate pruning: score interactive nodes against the current
//! intent and keep the best ones.
use vstd::prelude::*;
use crate::dom::{
    attr_insert, keys_distinct, lemma_lookup_index, lookup, spec_is_clickable, spec_is_input, spec_summary, DOMElementNode,
    NodeView, StrMap,
};
use crate::text::{
    chars_of, contains, contains_chars, lowercase, split_words, squash, squash_chars, str_eq,
    string_of, to_lower, trim, trim_chars, words,
};

verus! {

/// The lower-cased, trimmed, non-empty words of an intent.
pub open spec fn intent_tokens(intent: Seq<char>) -> Seq<Seq<char>> {
    nonempty_only(words(intent).map_values(|w: Seq<char>| lowercase(trim(w))))
}

pub open spec fn nonempty_only(s: Seq<Seq<char>>) -> Seq<Seq<char>>
    decreases s.len(),
{
    if s.len() == 0 {
        s
    } else if s.last().len() > 0 {
        nonempty_only(s.drop_last()).push(s.last())
    } else {
        nonempty_only(s.drop_last())
    }
}

pub open spec fn layer_is(n: NodeView, v: Seq<char>) -> bool {
    lookup(n.attrs, "data-munin-layer"@) == Some(v)
}

/// Some node sits in the active (top-most) overlay layer.
pub open spec fn has_active_layer(es: Seq<DOMElementNode>) -> bool {
    exists|i: int| 0 <= i < es.len() && layer_is(es[i]@, "active"@)
}

/// A node takes part in the ranking: buried nodes are dropped while an active
/// layer exists, and (when prioritizing) only clickable, input or textual nodes count.
pub open spec fn eligible(n: NodeView, active: bool, prioritize: bool) -> bool {
    &&& !(active && layer_is(n, "buried"@))
    &&& (prioritize ==> spec_is_clickable(n) || spec_is_input(n) || trim(n.text).len() > 0)
}

pub open spec fn attr_hit(n: NodeView, key: Seq<char>, tok: Seq<char>) -> bool {
    match lookup(n.attrs, key) {
        Some(v) => contains(lowercase(v), tok),
        None => false,
    }
}

/// The score one intent token adds to a node.
pub open spec fn token_score(n: NodeView, tok: Seq<char>) -> int {
    let tl = lowercase(n.text);
    (if contains(tl, tok) || (squash(tok).len() > 0 && contains(squash(tl), squash(tok))) {
        15int
    } else {
        0int
    }) + (if attr_hit(n, "id"@, tok) { 10int } else { 0int }) + (if attr_hit(n, "name"@, tok) {
        10int
    } else {
        0int
    }) + (if attr_hit(n, "placeholder"@, tok) { 10int } else { 0int }) + (if attr_hit(
        n,
        "aria-label"@,
        tok,
    ) {
        10int
    } else {
        0int
    })
}

pub open spec fn tokens_score(n: NodeView, toks: Seq<Seq<char>>) -> int
    decreases toks.len(),
{
    if toks.len() == 0 {
        0
    } else {
        tokens_score(n, toks.drop_last()) + token_score(n, toks.last())
    }
}

/// The relevance of a node to the intent tokens.
pub open spec fn node_score(n: NodeView, toks: Seq<Seq<char>>) -> int {
    (if layer_is(n, "active"@) {
        100int
    } else if layer_is(n, "buried"@) {
        -50int
    } else {
        0int
    }) + (if spec_is_clickable(n) { 5int } else { 0int }) + (if spec_is_input(n) { 5int } else { 0int })
        + tokens_score(n, toks)
}

/// `(score, index)` of each eligible node, in document order.
pub open spec fn scored(es: Seq<DOMElementNode>, toks: Seq<Seq<char>>, active: bool, prioritize: bool) -> Seq<(int, int)>
    decreases es.len(),
{
    if es.len() == 0 {
        seq![]
    } else {
        let prev = scored(es.drop_last(), toks, active, prioritize);
        if eligible(es.last()@, active, prioritize) {
            prev.push((node_score(es.last()@, toks), es.len() - 1))
        } else {
            prev
        }
    }
}

/// Position at which an item of score `sc` enters a descending list: after every
/// item scoring at least `sc` (so equal scores keep their order).
pub open spec fn first_lower(s: Seq<(int, int)>, sc: int) -> int
    decreases s.len(),
{
    if s.len() == 0 {
        0
    } else if s[0].0 < sc {
        0
    } else {
        1 + first_lower(s.drop_first(), sc)
    }
}

/// Stable sort by descending score.
pub open spec fn sort_desc(s: Seq<(int, int)>) -> Seq<(int, int)>
    decreases s.len(),
{
    if s.len() == 0 {
        s
    } else {
        let t = sort_desc(s.drop_last());
        t.insert(first_lower(t, s.last().0), s.last())
    }
}

/// Indices of the kept nodes, best first.
pub open spec fn pruned_indices(es: Seq<DOMElementNode>, intent: Seq<char>, k: int, prioritize: bool) -> Seq<int> {
    let ranked = sort_desc(scored(es, intent_tokens(intent), has_active_layer(es), prioritize));
    let m = if k < ranked.len() { k } else { ranked.len() as int };
    ranked.subrange(0, m).map_values(|p: (int, int)| p.1)
}

/// Keeps the candidates most relevant to the current intent.
#[derive(Debug, Clone)]
pub struct CandidatePruner {
    pub max_candidates: usize,
    pub prioritize_clickable_and_inputs: bool,
}

proof fn lemma_first_lower_bound(s: Seq<(int, int)>, sc: int)
    ensures
        0 <= first_lower(s, sc) <= s.len(),
    decreases s.len(),
{
    if s.len() > 0 && s[0].0 >= sc {
        lemma_first_lower_bound(s.drop_first(), sc);
    }
}

proof fn lemma_sort_len(s: Seq<(int, int)>)
    ensures
        sort_desc(s).len() == s.len(),
    decreases s.len(),
{
    if s.len() > 0 {
        lemma_sort_len(s.drop_last());
        lemma_first_lower_bound(sort_desc(s.drop_last()), s.last().0);
    }
}

proof fn lemma_words_len(s: Seq<char>, cur: Seq<char>)
    ensures
        crate::text::words_from(s, cur).len() <= s.len() + 1,
    decreases s.len(),
{
    if s.len() > 0 {
        if crate::text::is_ws(s[0]) {
            lemma_words_len(s.drop_first(), seq![]);
        } else {
            lemma_words_len(s.drop_first(), cur.push(s[0]));
        }
    }
}

proof fn lemma_nonempty_len(s: Seq<Seq<char>>)
    ensures
        nonempty_only(s).len() <= s.len(),
    decreases s.len(),
{
    if s.len() > 0 {
        lemma_nonempty_len(s.drop_last());
    }
}

impl CandidatePruner {
    pub fn new(max_candidates: usize) -> (r: Self)
        ensures
            r.max_candidates == max_candidates,
            r.prioritize_clickable_and_inputs,
    {
        CandidatePruner { max_candidates, prioritize_clickable_and_inputs: true }
    }

    /// The default pruner keeps thirty prioritized candidates.
    pub fn default_pruner() -> (r: Self)
        ensures
            r.max_candidates == 30,
            r.prioritize_clickable_and_inputs,
    {
        CandidatePruner { max_candidates: 30, prioritize_clickable_and_inputs: true }
    }

    /// The intent's tokens, lower-cased and trimmed.
    pub fn tokens(intent: &str) -> (r: Vec<Vec<char>>)
        ensures
            r@.len() == intent_tokens(intent@).len(),
            forall|i: int| 0 <= i < r@.len() ==> (#[trigger] r@[i])@ == intent_tokens(intent@)[i],
    {
        let chars = chars_of(intent);
        let ws = split_words(&chars);
        let ghost mapped = words(intent@).map_values(|w: Seq<char>| lowercase(trim(w)));
        let mut out: Vec<Vec<char>> = Vec::new();
        let mut i: usize = 0;
        while i < ws.len()
            invariant
                ws@.len() == words(intent@).len(),
                forall|k: int| 0 <= k < ws@.len() ==> #[trigger] ws@[k]@ == words(intent@)[k],
                mapped == words(intent@).map_values(|w: Seq<char>| lowercase(trim(w))),
                i <= ws@.len(),
                out@.len() == nonempty_only(mapped.subrange(0, i as int)).len(),
                forall|k: int| 0 <= k < out@.len() ==> (#[trigger] out@[k])@ == nonempty_only(mapped.subrange(0, i as int))[k],
            decreases ws@.len() - i,
        {
            let t = trim_chars(&ws[i]);
            let ts = string_of(&t);
            let l = to_lower(ts.as_str());
            let lc = chars_of(l.as_str());
            proof {
                let sub = mapped.subrange(0, i + 1);
                assert(sub.drop_last() =~= mapped.subrange(0, i as int));
                assert(sub.last() == mapped[i as int]);
                assert(mapped[i as int] == lc@);
            }
            if lc.len() > 0 {
                out.push(lc);
            }
            i += 1;
        }
        proof {
            assert(mapped.subrange(0, ws@.len() as int) =~= mapped);
        }
        out
    }

    /// The score of one node against the intent tokens.
    pub fn score_node(e: &DOMElementNode, toks: &Vec<Vec<char>>) -> (r: i64)
        requires
            toks@.len() <= 0x1_0000_0000_0000,
        ensures
            r == node_score(e@, toks@.map_values(|t: Vec<char>| t@)),
    {
        let ghost tv = toks@.map_values(|t: Vec<char>| t@);
        let mut score: i64 = 0;
        if layer_eq(e, "active") {
            score = 100;
        } else if layer_eq(e, "buried") {
            score = -50;
        }
        if e.is_clickable() {
            score = score + 5;
        }
        if e.is_input() {
            score = score + 5;
        }
        let tl_s = to_lower(e.text.as_str());
        let tl = chars_of(tl_s.as_str());
        let tsq = squash_chars(&tl);
        let id_l = lower_attr(e, "id");
        let name_l = lower_attr(e, "name");
        let ph_l = lower_attr(e, "placeholder");
        let aria_l = lower_attr(e, "aria-label");
        let ghost base = score as int;
        let mut i: usize = 0;
        while i < toks.len()
            invariant
                toks@.len() <= 0x1_0000_0000_0000,
                tv == toks@.map_values(|t: Vec<char>| t@),
                i <= toks@.len(),
                base <= 110 && base >= -50,
                tl@ == lowercase(e@.text),
                tsq@ == squash(tl@),
                opt_chars(id_l) == lower_attr_spec(e@, "id"@),
                opt_chars(name_l) == lower_attr_spec(e@, "name"@),
                opt_chars(ph_l) == lower_attr_spec(e@, "placeholder"@),
                opt_chars(aria_l) == lower_attr_spec(e@, "aria-label"@),
                score == base + tokens_score(e@, tv.subrange(0, i as int)),
                0 <= tokens_score(e@, tv.subrange(0, i as int)) <= 55 * i,
                base == (if layer_is(e@, "active"@) {
                    100int
                } else if layer_is(e@, "buried"@) {
                    -50int
                } else {
                    0int
                }) + (if spec_is_clickable(e@) { 5int } else { 0int }) + (if spec_is_input(e@) { 5int } else { 0int }),
            decreases toks@.len() - i,
        {
            let tok = &toks[i];
            let mut add: i64 = 0;
            if contains_chars(&tl, tok) {
                add = 15;
            } else {
                let tok_sq = squash_chars(tok);
                if tok_sq.len() > 0 && contains_chars(&tsq, &tok_sq) {
                    add = 15;
                }
            }
            if opt_contains(&id_l, tok) {
                add = add + 10;
            }
            if opt_contains(&name_l, tok) {
                add = add + 10;
            }
            if opt_contains(&ph_l, tok) {
                add = add + 10;
            }
            if opt_contains(&aria_l, tok) {
                add = add + 10;
            }
            proof {
                let sub = tv.subrange(0, i + 1);
                assert(sub.drop_last() =~= tv.subrange(0, i as int));
                assert(sub.last() == toks@[i as int]@);
                assert(add == token_score(e@, toks@[i as int]@));
            }
            score = score + add;
            i += 1;
        }
        proof {
            assert(tv.subrange(0, toks@.len() as int) =~= tv);
        }
        score
    }

    /// Ranks the nodes relevant to `current_intent`, best first, keeping at most
    /// `max_candidates`; equal scores keep document order.
    pub fn prune<'a>(&self, elements: &'a [DOMElementNode], current_intent: &str) -> (r: Vec<&'a DOMElementNode>)
        requires
            current_intent@.len() < 0x1_0000_0000_0000,
        ensures
            r@.len() == pruned_indices(elements@, current_intent@, self.max_candidates as int, self.prioritize_clickable_and_inputs).len(),
            forall|i: int| 0 <= i < r@.len() ==> *r@[i] == elements@[
                pruned_indices(elements@, current_intent@, self.max_candidates as int, self.prioritize_clickable_and_inputs)[i]
            ],
    {
        let toks = Self::tokens(current_intent);
        let ghost tv = toks@.map_values(|t: Vec<char>| t@);
        proof {
            assert(tv =~= intent_tokens(current_intent@));
            lemma_words_len(current_intent@, seq![]);
            lemma_nonempty_len(words(current_intent@).map_values(|w: Seq<char>| lowercase(trim(w))));
        }
        let active = Self::any_active(elements);
        let prio = self.prioritize_clickable_and_inputs;
        let ghost es = elements@;
        // sorted holds (score, index) pairs of the eligible nodes seen so far, ranked
        let mut sorted: Vec<(i64, usize)> = Vec::new();
        let mut i: usize = 0;
        while i < elements.len()
            invariant
                es == elements@,
                i <= es.len(),
                toks@.len() <= 0x1_0000_0000_0000,
                tv == toks@.map_values(|t: Vec<char>| t@),
                active == has_active_layer(es),
                prio == self.prioritize_clickable_and_inputs,
                sorted@.map_values(|p: (i64, usize)| (p.0 as int, p.1 as int)) == sort_desc(
                    scored(es.subrange(0, i as int), tv, active, prio),
                ),
                forall|j: int| 0 <= j < sorted@.len() ==> (#[trigger] sorted@[j]).1 < i,
            decreases es.len() - i,
        {
            let e = &elements[i];
            let ghost prev = es.subrange(0, i as int);
            proof {
                let sub = es.subrange(0, i + 1);
                assert(sub.drop_last() =~= prev);
                assert(sub.last() == es[i as int]);
            }
            if Self::is_eligible(e, active, prio) {
                let sc = Self::score_node(e, &toks);
                let ghost before = sorted@.map_values(|p: (i64, usize)| (p.0 as int, p.1 as int));
                let ghost old_sorted = sorted@;
                let pos = insert_position(&sorted, sc);
                sorted.insert(pos, (sc, i));
                proof {
                    let after = sorted@.map_values(|p: (i64, usize)| (p.0 as int, p.1 as int));
                    assert(after =~= before.insert(pos as int, (sc as int, i as int)));
                    assert forall|j: int| 0 <= j < sorted@.len() implies (#[trigger] sorted@[j]).1 < i + 1 by {
                        if j < pos {
                            assert(sorted@[j] == old_sorted[j]);
                        } else if j > pos {
                            assert(sorted@[j] == old_sorted[j - 1]);
                        }
                    }
                    let sp = scored(prev, tv, active, prio);
                    let x = (sc as int, i as int);
                    assert(sp.push(x).drop_last() =~= sp);
                    assert(scored(es.subrange(0, i + 1), tv, active, prio) == sp.push(x));
                }
            } else {
                proof {
                    assert(scored(es.subrange(0, i + 1), tv, active, prio) == scored(prev, tv, active, prio));
                }
            }
            i += 1;
        }
        proof {
            assert(es.subrange(0, es.len() as int) =~= es);
        }
        let ghost ranked = sort_desc(scored(es, tv, active, prio));
        let m = if self.max_candidates < sorted.len() { self.max_candidates } else { sorted.len() };
        let mut out: Vec<&'a DOMElementNode> = Vec::new();
        let mut k: usize = 0;
        while k < m
            invariant
                m <= sorted@.len(),
                ranked == sorted@.map_values(|p: (i64, usize)| (p.0 as int, p.1 as int)),
                forall|j: int| 0 <= j < sorted@.len() ==> (#[trigger] sorted@[j]).1 < elements@.len(),
                k <= m,
                out@.len() == k,
                forall|j: int| 0 <= j < k ==> *out@[j] == elements@[ranked[j].1],
            decreases m - k,
        {
            let idx = sorted[k].1;
            out.push(&elements[idx]);
            k += 1;
        }
        proof {
            let pi = pruned_indices(elements@, current_intent@, self.max_candidates as int, self.prioritize_clickable_and_inputs);
            assert(ranked.len() == sorted@.len());
            assert(pi.len() == m);
            assert forall|j: int| 0 <= j < out@.len() implies *out@[j] == elements@[pi[j]] by {
                assert(pi[j] == ranked[j].1);
            }
        }
        out
    }

    /// The top candidates as a choice-criteria map: node id to semantic summary.
    pub fn prune_to_map(&self, elements: &[DOMElementNode], current_intent: &str) -> (r: StrMap)
        requires
            current_intent@.len() < 0x1_0000_0000_0000,
        ensures
            r.view() == summaries_map(
                pruned_indices(elements@, current_intent@, self.max_candidates as int, self.prioritize_clickable_and_inputs).map_values(|i: int| elements@[i]@),
            ),
    {
        let pruned = self.prune(elements, current_intent);
        let ghost nodes = pruned_indices(elements@, current_intent@, self.max_candidates as int, self.prioritize_clickable_and_inputs).map_values(|i: int| elements@[i]@);
        let mut map = StrMap::new();
        let mut i: usize = 0;
        while i < pruned.len()
            invariant
                nodes.len() == pruned@.len(),
                forall|j: int| 0 <= j < pruned@.len() ==> (*pruned@[j])@ == nodes[j],
                i <= pruned@.len(),
                map.view() == summaries_map(nodes.subrange(0, i as int)),
            decreases pruned@.len() - i,
        {
            let e = pruned[i];
            let summary = e.semantic_summary();
            map.insert(e.node_id.as_str(), summary.as_str());
            proof {
                let sub = nodes.subrange(0, i + 1);
                assert(sub.drop_last() =~= nodes.subrange(0, i as int));
                assert(sub.last() == nodes[i as int]);
            }
            i += 1;
        }
        proof {
            assert(nodes.subrange(0, nodes.len() as int) =~= nodes);
        }
        map
    }

    fn any_active(elements: &[DOMElementNode]) -> (b: bool)
        ensures
            b == has_active_layer(elements@),
    {
        let mut i: usize = 0;
        while i < elements.len()
            invariant
                i <= elements@.len(),
                forall|j: int| 0 <= j < i ==> !layer_is(elements@[j]@, "active"@),
            decreases elements@.len() - i,
        {
            if layer_eq(&elements[i], "active") {
                return true;
            }
            i += 1;
        }
        false
    }

    fn is_eligible(e: &DOMElementNode, active: bool, prio: bool) -> (b: bool)
        ensures
            b == eligible(e@, active, prio),
    {
        if active && layer_eq(e, "buried") {
            return false;
        }
        if prio {
            if e.is_clickable() || e.is_input() {
                return true;
            }
            let raw = chars_of(e.text.as_str());
            let t = trim_chars(&raw);
            t.len() > 0
        } else {
            true
        }
    }
}

/// The choice-criteria map built from nodes in order: id to semantic summary,
/// a later node replacing an earlier one with the same id.
pub open spec fn summaries_map(ns: Seq<NodeView>) -> Seq<(Seq<char>, Seq<char>)>
    decreases ns.len(),
{
    if ns.len() == 0 {
        seq![]
    } else {
        attr_insert(summaries_map(ns.drop_last()), ns.last().node_id, crate::dom::spec_summary(ns.last()))
    }
}

pub open spec fn opt_chars(o: Option<Vec<char>>) -> Option<Seq<char>> {
    match o {
        Some(v) => Some(v@),
        None => None,
    }
}

pub open spec fn lower_attr_spec(n: NodeView, key: Seq<char>) -> Option<Seq<char>> {
    match lookup(n.attrs, key) {
        Some(v) => Some(lowercase(v)),
        None => None,
    }
}

fn lower_attr(e: &DOMElementNode, key: &str) -> (r: Option<Vec<char>>)
    ensures
        opt_chars(r) == lower_attr_spec(e@, key@),
{
    match e.get_attribute(key) {
        Some(v) => {
            let l = to_lower(v);
            Some(chars_of(l.as_str()))
        },
        None => None,
    }
}

fn opt_contains(o: &Option<Vec<char>>, tok: &Vec<char>) -> (b: bool)
    ensures
        b == match opt_chars(*o) {
            Some(v) => contains(v, tok@),
            None => false,
        },
{
    match o {
        Some(v) => contains_chars(v, tok),
        None => false,
    }
}

/// Whether the node's overlay-layer attribute equals `v`.
pub fn layer_eq(e: &DOMElementNode, v: &str) -> (b: bool)
    ensures
        b == layer_is(e@, v@),
{
    match e.get_attribute("data-munin-layer") {
        Some(l) => str_eq(l, v),
        None => false,
    }
}

proof fn lemma_first_lower_split(s: Seq<(int, int)>, p: int, sc: int)
    requires
        0 <= p <= s.len(),
        forall|j: int| 0 <= j < p ==> s[j].0 >= sc,
    ensures
        first_lower(s, sc) == p + first_lower(s.subrange(p, s.len() as int), sc),
    decreases p,
{
    if p == 0 {
        assert(s.subrange(0, s.len() as int) =~= s);
    } else {
        assert(s[0].0 >= sc);
        let t = s.drop_first();
        assert forall|j: int| 0 <= j < p - 1 implies t[j].0 >= sc by {
            assert(t[j] == s[j + 1]);
        }
        lemma_first_lower_split(t, p - 1, sc);
        assert(t.subrange(p - 1, t.len() as int) =~= s.subrange(p, s.len() as int));
    }
}

/// The position at which an item scoring `sc` enters the ranked list.
fn insert_position(sorted: &Vec<(i64, usize)>, sc: i64) -> (p: usize)
    ensures
        p <= sorted@.len(),
        p == first_lower(sorted@.map_values(|q: (i64, usize)| (q.0 as int, q.1 as int)), sc as int),
{
    let ghost s = sorted@.map_values(|q: (i64, usize)| (q.0 as int, q.1 as int));
    let mut p: usize = 0;
    while p < sorted.len() && sorted[p].0 >= sc
        invariant
            s == sorted@.map_values(|q: (i64, usize)| (q.0 as int, q.1 as int)),
            p <= sorted@.len(),
            forall|j: int| 0 <= j < p ==> s[j].0 >= sc,
        decreases sorted@.len() - p,
    {
        p += 1;
    }
    proof {
        lemma_first_lower_split(s, p as int, sc as int);
        let rest = s.subrange(p as int, s.len() as int);
        if rest.len() > 0 {
            assert(rest[0] == s[p as int]);
        }
    }
    p
}

/// Scores never rise along the list.
pub open spec fn ranked_desc(s: Seq<(int, int)>) -> bool {
    forall|i: int, j: int| 0 <= i < j < s.len() ==> s[i].0 >= s[j].0
}

proof fn lemma_first_lower_props(t: Seq<(int, int)>, sc: int)
    requires
        ranked_desc(t),
    ensures
        0 <= first_lower(t, sc) <= t.len(),
        forall|j: int| 0 <= j < first_lower(t, sc) ==> t[j].0 >= sc,
        forall|j: int| first_lower(t, sc) <= j < t.len() ==> t[j].0 < sc,
    decreases t.len(),
{
    if t.len() > 0 {
        if t[0].0 >= sc {
            let u = t.drop_first();
            assert(ranked_desc(u)) by {
                assert forall|i: int, j: int| 0 <= i < j < u.len() implies u[i].0 >= u[j].0 by {
                    assert(u[i] == t[i + 1] && u[j] == t[j + 1]);
                }
            }
            lemma_first_lower_props(u, sc);
            assert forall|j: int| 0 <= j < first_lower(t, sc) implies t[j].0 >= sc by {
                if j > 0 {
                    assert(t[j] == u[j - 1]);
                }
            }
            assert forall|j: int| first_lower(t, sc) <= j < t.len() implies t[j].0 < sc by {
                assert(t[j] == u[j - 1]);
            }
        } else {
            assert forall|j: int| 0 <= j < t.len() implies t[j].0 < sc by {
                assert(t[0].0 >= t[j].0);
            }
        }
    }
}

proof fn lemma_sort_ranked(s: Seq<(int, int)>)
    ensures
        sort_desc(s).len() == s.len(),
        ranked_desc(sort_desc(s)),
        forall|i: int| 0 <= i < sort_desc(s).len() ==> s.contains(#[trigger] sort_desc(s)[i]),
    decreases s.len(),
{
    if s.len() > 0 {
        let t = sort_desc(s.drop_last());
        lemma_sort_ranked(s.drop_last());
        let x = s.last();
        lemma_first_lower_props(t, x.0);
        let p = first_lower(t, x.0);
        let r = t.insert(p, x);
        assert(r == sort_desc(s));
        assert forall|i: int, j: int| 0 <= i < j < r.len() implies r[i].0 >= r[j].0 by {
            if j < p {
                assert(r[i] == t[i] && r[j] == t[j]);
            } else if j == p {
                assert(r[i] == t[i]);
            } else if i < p {
                assert(r[i] == t[i] && r[j] == t[j - 1]);
            } else if i == p {
                assert(r[j] == t[j - 1]);
            } else {
                assert(r[i] == t[i - 1] && r[j] == t[j - 1]);
            }
        }
        assert forall|i: int| 0 <= i < r.len() implies s.contains(#[trigger] r[i]) by {
            if i < p {
                assert(r[i] == t[i]);
                assert(s.drop_last().contains(t[i]));
                let k = choose|k: int| 0 <= k < s.drop_last().len() && s.drop_last()[k] == t[i];
                assert(s[k] == t[i]);
            } else if i == p {
                assert(s[s.len() - 1] == x);
            } else {
                assert(r[i] == t[i - 1]);
                assert(s.drop_last().contains(t[i - 1]));
                let k = choose|k: int| 0 <= k < s.drop_last().len() && s.drop_last()[k] == t[i - 1];
                assert(s[k] == t[i - 1]);
            }
        }
    }
}

proof fn lemma_scored_entries(es: Seq<DOMElementNode>, toks: Seq<Seq<char>>, active: bool, prioritize: bool)
    ensures
        forall|i: int|
            0 <= i < scored(es, toks, active, prioritize).len() ==> {
                let q = #[trigger] scored(es, toks, active, prioritize)[i];
                0 <= q.1 < es.len() && q.0 == node_score(es[q.1]@, toks)
            },
    decreases es.len(),
{
    if es.len() > 0 {
        lemma_scored_entries(es.drop_last(), toks, active, prioritize);
        let prev = scored(es.drop_last(), toks, active, prioritize);
        assert forall|i: int| 0 <= i < prev.len() implies (#[trigger] prev[i]).1 < es.len() - 1 && es[prev[i].1] == es.drop_last()[prev[i].1] by {}
    }
}

/// Top-K ranking: pruning keeps at most K nodes, each a real node, best first
/// (no kept node scores higher than one kept before it).
pub proof fn law_prune_ranked(es: Seq<DOMElementNode>, intent: Seq<char>, k: int, prioritize: bool)
    requires
        0 <= k,
    ensures
        pruned_indices(es, intent, k, prioritize).len() <= k,
        forall|i: int|
            0 <= i < pruned_indices(es, intent, k, prioritize).len() ==> 0 <= #[trigger] pruned_indices(
                es,
                intent,
                k,
                prioritize,
            )[i] < es.len(),
        forall|i: int, j: int|
            0 <= i < j < pruned_indices(es, intent, k, prioritize).len() ==> node_score(
                es[pruned_indices(es, intent, k, prioritize)[i]]@,
                intent_tokens(intent),
            ) >= node_score(es[pruned_indices(es, intent, k, prioritize)[j]]@, intent_tokens(intent)),
{
    let toks = intent_tokens(intent);
    let sc = scored(es, toks, has_active_layer(es), prioritize);
    let ranked = sort_desc(sc);
    lemma_sort_ranked(sc);
    lemma_scored_entries(es, toks, has_active_layer(es), prioritize);
    let m = if k < ranked.len() { k } else { ranked.len() as int };
    let idx = pruned_indices(es, intent, k, prioritize);
    assert(idx =~= ranked.subrange(0, m).map_values(|p: (int, int)| p.1));
    assert forall|i: int| 0 <= i < idx.len() implies ranked[i].1 == idx[i] && 0 <= #[trigger] idx[i] < es.len()
        && ranked[i].0 == node_score(es[idx[i]]@, toks) by {
        assert(sc.contains(ranked[i]));
        let w = choose|w: int| 0 <= w < sc.len() && sc[w] == ranked[i];
        assert(sc[w] == ranked[i]);
    }
    assert forall|i: int, j: int| 0 <= i < j < idx.len() implies node_score(es[idx[i]]@, toks) >= node_score(
        es[idx[j]]@,
        toks,
    ) by {
        assert(ranked[i].0 >= ranked[j].0);
        assert(ranked[i].1 == idx[i] && ranked[i].0 == node_score(es[idx[i]]@, toks));
        assert(ranked[j].1 == idx[j] && ranked[j].0 == node_score(es[idx[j]]@, toks));
    }
}

proof fn lemma_scored_increasing(es: Seq<DOMElementNode>, toks: Seq<Seq<char>>, active: bool, prioritize: bool)
    ensures
        forall|i: int, j: int|
            0 <= i < j < scored(es, toks, active, prioritize).len() ==> #[trigger] scored(es, toks, active, prioritize)[i].1
                < #[trigger] scored(es, toks, active, prioritize)[j].1,
    decreases es.len(),
{
    if es.len() > 0 {
        lemma_scored_increasing(es.drop_last(), toks, active, prioritize);
        lemma_scored_entries(es.drop_last(), toks, active, prioritize);
        let prev = scored(es.drop_last(), toks, active, prioritize);
        let cur = scored(es, toks, active, prioritize);
        assert forall|i: int, j: int| 0 <= i < j < cur.len() implies #[trigger] cur[i].1 < #[trigger] cur[j].1 by {
            if j < prev.len() {
                assert(cur[i] == prev[i] && cur[j] == prev[j]);
            } else {
                assert(cur[i] == prev[i]);
                assert(prev[i].1 < es.len() - 1);
                assert(cur[j].1 == es.len() - 1);
            }
        }
    }
}

/// No two entries carry the same node index.
pub open spec fn distinct_indices(s: Seq<(int, int)>) -> bool {
    forall|i: int, j: int| 0 <= i < s.len() && 0 <= j < s.len() && i != j ==> s[i].1 != s[j].1
}

proof fn lemma_sort_distinct(s: Seq<(int, int)>)
    requires
        distinct_indices(s),
    ensures
        distinct_indices(sort_desc(s)),
    decreases s.len(),
{
    if s.len() > 0 {
        let u = s.drop_last();
        assert(distinct_indices(u)) by {
            assert forall|i: int, j: int| 0 <= i < u.len() && 0 <= j < u.len() && i != j implies u[i].1 != u[j].1 by {
                assert(u[i] == s[i] && u[j] == s[j]);
            }
        }
        lemma_sort_distinct(u);
        lemma_sort_ranked(u);
        let t = sort_desc(u);
        let x = s.last();
        lemma_first_lower_bound(t, x.0);
        let p = first_lower(t, x.0);
        let r = t.insert(p, x);
        assert forall|i: int| 0 <= i < t.len() implies (#[trigger] t[i]).1 != x.1 by {
            assert(u.contains(t[i]));
            let k = choose|k: int| 0 <= k < u.len() && u[k] == t[i];
            assert(s[k] == t[i]);
            assert(s[s.len() - 1] == x);
        }
        assert forall|i: int, j: int| 0 <= i < r.len() && 0 <= j < r.len() && i != j implies r[i].1 != r[j].1 by {
            let ti = if i < p { i } else { i - 1 };
            let tj = if j < p { j } else { j - 1 };
            if i == p {
                assert(r[j] == t[tj]);
            } else if j == p {
                assert(r[i] == t[ti]);
            } else {
                assert(r[i] == t[ti] && r[j] == t[tj]);
            }
        }
    }
}

/// The kept nodes are distinct nodes of the page.
proof fn lemma_pruned_distinct(es: Seq<DOMElementNode>, intent: Seq<char>, k: int, prioritize: bool)
    requires
        0 <= k,
    ensures
        forall|i: int, j: int|
            0 <= i < j < pruned_indices(es, intent, k, prioritize).len() ==> #[trigger] pruned_indices(es, intent, k, prioritize)[i]
                != #[trigger] pruned_indices(es, intent, k, prioritize)[j],
{
    let toks = intent_tokens(intent);
    let sc = scored(es, toks, has_active_layer(es), prioritize);
    lemma_scored_increasing(es, toks, has_active_layer(es), prioritize);
    assert(distinct_indices(sc)) by {
        assert forall|i: int, j: int| 0 <= i < sc.len() && 0 <= j < sc.len() && i != j implies sc[i].1 != sc[j].1 by {
            if i < j {
                assert(sc[i].1 < sc[j].1);
            } else {
                assert(sc[j].1 < sc[i].1);
            }
        }
    }
    lemma_sort_distinct(sc);
    lemma_sort_ranked(sc);
    let ranked = sort_desc(sc);
    let m = if k < ranked.len() { k } else { ranked.len() as int };
    let idx = pruned_indices(es, intent, k, prioritize);
    assert(idx =~= ranked.subrange(0, m).map_values(|p: (int, int)| p.1));
    assert forall|i: int, j: int| 0 <= i < j < idx.len() implies idx[i] != idx[j] by {
        assert(idx[i] == ranked[i].1 && idx[j] == ranked[j].1);
    }
}

proof fn lemma_summaries_distinct(ns: Seq<NodeView>)
    requires
        forall|i: int, j: int| 0 <= i < j < ns.len() ==> (#[trigger] ns[i]).node_id != (#[trigger] ns[j]).node_id,
    ensures
        summaries_map(ns) == ns.map_values(|n: NodeView| (n.node_id, spec_summary(n))),
    decreases ns.len(),
{
    if ns.len() > 0 {
        let u = ns.drop_last();
        assert forall|i: int, j: int| 0 <= i < j < u.len() implies (#[trigger] u[i]).node_id != (#[trigger] u[j]).node_id by {
            assert(u[i] == ns[i] && u[j] == ns[j]);
        }
        lemma_summaries_distinct(u);
        let prev = summaries_map(u);
        let k = ns.last().node_id;
        assert(!(exists|i: int| 0 <= i < prev.len() && prev[i].0 == k)) by {
            assert forall|i: int| 0 <= i < prev.len() implies prev[i].0 != k by {
                assert(prev[i].0 == u[i].node_id);
                assert(u[i] == ns[i]);
            }
        }
        assert(summaries_map(ns) =~= ns.map_values(|n: NodeView| (n.node_id, spec_summary(n))));
    }
}

/// Map law of pruning: on a page whose node ids are distinct, the pruned map
/// holds exactly one entry per kept node, in rank order, each keyed by the
/// node's id with its semantic summary; no key repeats.
pub proof fn law_prune_to_map_entries(es: Seq<DOMElementNode>, intent: Seq<char>, k: int, prioritize: bool)
    requires
        0 <= k,
        forall|i: int, j: int| 0 <= i < j < es.len() ==> (#[trigger] es[i])@.node_id != (#[trigger] es[j])@.node_id,
    ensures
        ({
            let ns = pruned_indices(es, intent, k, prioritize).map_values(|i: int| es[i]@);
            &&& summaries_map(ns).len() == pruned_indices(es, intent, k, prioritize).len()
            &&& keys_distinct(summaries_map(ns))
            &&& forall|i: int| 0 <= i < ns.len() ==> #[trigger] summaries_map(ns)[i] == (ns[i].node_id, spec_summary(ns[i]))
            &&& forall|i: int| 0 <= i < ns.len() ==> lookup(summaries_map(ns), (#[trigger] ns[i]).node_id) == Some(spec_summary(ns[i]))
        }),
{
    let idx = pruned_indices(es, intent, k, prioritize);
    let ns = idx.map_values(|i: int| es[i]@);
    law_prune_ranked(es, intent, k, prioritize);
    lemma_pruned_distinct(es, intent, k, prioritize);
    assert forall|i: int, j: int| 0 <= i < j < ns.len() implies (#[trigger] ns[i]).node_id != (#[trigger] ns[j]).node_id by {
        assert(idx[i] != idx[j]);
        assert(0 <= idx[i] < es.len() && 0 <= idx[j] < es.len());
        if idx[i] < idx[j] {
            assert(es[idx[i]]@.node_id != es[idx[j]]@.node_id);
        } else {
            assert(es[idx[j]]@.node_id != es[idx[i]]@.node_id);
        }
    }
    lemma_summaries_distinct(ns);
    let m = summaries_map(ns);
    assert(keys_distinct(m)) by {
        assert forall|a: int, b: int| 0 <= a < m.len() && 0 <= b < m.len() && a != b implies m[a].0 != m[b].0 by {
            if a < b {
                assert(ns[a].node_id != ns[b].node_id);
            } else {
                assert(ns[b].node_id != ns[a].node_id);
            }
        }
    }
    assert forall|i: int| 0 <= i < ns.len() implies lookup(m, (#[trigger] ns[i]).node_id) == Some(spec_summary(ns[i])) by {
        lemma_lookup_index(m, ns[i].node_id, i);
    }
}

/// Prefix law: a pruner that keeps fewer candidates keeps the first ones that
/// a pruner keeping more candidates ranks, in the same order.
pub proof fn law_prune_prefix(es: Seq<DOMElementNode>, intent: Seq<char>, k1: int, k2: int, prioritize: bool)
    requires
        0 <= k1 <= k2,
    ensures
        ({
            let q = pruned_indices(es, intent, k2, prioritize);
            pruned_indices(es, intent, k1, prioritize) == q.subrange(0, if k1 < q.len() { k1 } else { q.len() as int })
        }),
{
    let ranked = sort_desc(scored(es, intent_tokens(intent), has_active_layer(es), prioritize));
    let m1 = if k1 < ranked.len() { k1 } else { ranked.len() as int };
    let m2 = if k2 < ranked.len() { k2 } else { ranked.len() as int };
    let q = pruned_indices(es, intent, k2, prioritize);
    assert(q =~= ranked.subrange(0, m2).map_values(|p: (int, int)| p.1));
    let m = if k1 < q.len() { k1 } else { q.len() as int };
    assert(m == m1);
    assert(pruned_indices(es, intent, k1, prioritize) =~= q.subrange(0, m));
}

proof fn lemma_tokens_score_case(n1: NodeView, n2: NodeView, toks: Seq<Seq<char>>)
    requires
        n1.attrs == n2.attrs,
        lowercase(n1.text) == lowercase(n2.text),
    ensures
        tokens_score(n1, toks) == tokens_score(n2, toks),
    decreases toks.len(),
{
    if toks.len() > 0 {
        lemma_tokens_score_case(n1, n2, toks.drop_last());
    }
}

/// Text matching ignores letter case: nodes with the same tag and attributes
/// whose texts agree once lower-cased score alike against any intent; a token
/// found in a node's lower-cased text earns at least 15 points, 15 more than
/// the same node earns when its lower-cased text holds neither the token nor
/// its blank-free form.
pub proof fn law_text_match_ignores_case(n1: NodeView, n2: NodeView, toks: Seq<Seq<char>>, tok: Seq<char>)
    ensures
        n1.tag == n2.tag && n1.attrs == n2.attrs && lowercase(n1.text) == lowercase(n2.text) ==> node_score(n1, toks)
            == node_score(n2, toks),
        contains(lowercase(n1.text), tok) ==> token_score(n1, tok) >= 15,
        n1.attrs == n2.attrs && contains(lowercase(n1.text), tok) && !contains(lowercase(n2.text), tok) && !contains(
            squash(lowercase(n2.text)),
            squash(tok),
        ) ==> token_score(n1, tok) == token_score(n2, tok) + 15,
{
    if n1.tag == n2.tag && n1.attrs == n2.attrs && lowercase(n1.text) == lowercase(n2.text) {
        lemma_tokens_score_case(n1, n2, toks);
    }
}

} // verus!
