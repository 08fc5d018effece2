//! Overlay busting: spot the buttons that dismiss popups, masks and consent
//! banners, and decide whether the fast engine's pick is confident enough.
use vstd::prelude::*;
use vstd::string::*;
use crate::dom::{attr_insert, lookup, DOMElementNode, NodeView, StrMap};
use crate::text::{chars_of, contains, contains_chars, eq_ignore_ascii, eq_ignore_ascii_chars, string_of, trim, trim_chars};
use crate::types::Confidence;

verus! {

/// Finds and dismisses overlays.
#[derive(Debug, Clone)]
pub struct OverlayBuster {
    pub dismiss_keywords: Vec<String>,
    pub confidence_threshold: Confidence,
}

pub open spec fn keywords_view(k: Seq<String>) -> Seq<Seq<char>> {
    k.map_values(|s: String| s@)
}

/// The text and ARIA label a keyword is matched against.
pub open spec fn label_of(n: NodeView) -> Seq<char> {
    match lookup(n.attrs, "aria-label"@) {
        Some(a) => a,
        None => Seq::<char>::empty(),
    }
}

pub open spec fn keyword_hit(n: NodeView, k: Seq<char>) -> bool {
    let text = trim(n.text);
    let aria = label_of(n);
    contains(text, k) || contains(aria, k) || eq_ignore_ascii(text, k) || eq_ignore_ascii(aria, k)
}

/// A node is a dismiss candidate when its trimmed text or ARIA label contains
/// (or case-insensitively equals) some dismiss keyword.
pub open spec fn is_candidate(n: NodeView, kws: Seq<Seq<char>>) -> bool {
    exists|i: int| 0 <= i < kws.len() && keyword_hit(n, kws[i])
}

pub open spec fn candidate_indices(es: Seq<DOMElementNode>, kws: Seq<Seq<char>>) -> Seq<int>
    decreases es.len(),
{
    if es.len() == 0 {
        seq![]
    } else if is_candidate(es.last()@, kws) {
        candidate_indices(es.drop_last(), kws).push(es.len() - 1)
    } else {
        candidate_indices(es.drop_last(), kws)
    }
}

/// The description of a candidate given to the engine: `tag [trimmed text]`.
pub open spec fn candidate_label(n: NodeView) -> Seq<char> {
    n.tag + " ["@ + trim(n.text) + "]"@
}

pub open spec fn criteria_of(ns: Seq<NodeView>) -> Seq<(Seq<char>, Seq<char>)>
    decreases ns.len(),
{
    if ns.len() == 0 {
        seq![]
    } else {
        attr_insert(criteria_of(ns.drop_last()), ns.last().node_id, candidate_label(ns.last()))
    }
}

/// The keywords a dismiss button is recognised by, Chinese and English.
pub open spec fn default_dismiss_keywords() -> Seq<Seq<char>> {
    seq![
        "关闭"@,
        "跳过"@,
        "拒绝"@,
        "我知道了"@,
        "同意"@,
        "确定"@,
        "取消"@,
        "暂不"@,
        "Close"@,
        "Dismiss"@,
        "Accept"@,
        "Reject"@,
        "Cancel"@,
        "Skip"@,
        "Got it"@,
        "Later"@,
    ]
}

impl Default for OverlayBuster {
    fn default() -> (r: Self)
        ensures
            r.confidence_threshold == 8000,
            keywords_view(r.dismiss_keywords@) == default_dismiss_keywords(),
    {
        let mut k: Vec<String> = Vec::new();
        k.push(String::from_str("关闭"));
        k.push(String::from_str("跳过"));
        k.push(String::from_str("拒绝"));
        k.push(String::from_str("我知道了"));
        k.push(String::from_str("同意"));
        k.push(String::from_str("确定"));
        k.push(String::from_str("取消"));
        k.push(String::from_str("暂不"));
        k.push(String::from_str("Close"));
        k.push(String::from_str("Dismiss"));
        k.push(String::from_str("Accept"));
        k.push(String::from_str("Reject"));
        k.push(String::from_str("Cancel"));
        k.push(String::from_str("Skip"));
        k.push(String::from_str("Got it"));
        k.push(String::from_str("Later"));
        assert(keywords_view(k@) =~= default_dismiss_keywords());
        OverlayBuster { dismiss_keywords: k, confidence_threshold: 8000 }
    }
}

impl OverlayBuster {
    pub fn new() -> (r: Self)
        ensures
            r.confidence_threshold == 8000,
            keywords_view(r.dismiss_keywords@) == default_dismiss_keywords(),
    {
        Self::default()
    }

    pub fn with_keywords(self, keywords: Vec<String>) -> (r: Self)
        ensures
            r.dismiss_keywords == keywords,
            r.confidence_threshold == self.confidence_threshold,
    {
        OverlayBuster { dismiss_keywords: keywords, confidence_threshold: self.confidence_threshold }
    }

    pub fn with_threshold(self, threshold: Confidence) -> (r: Self)
        ensures
            r.dismiss_keywords == self.dismiss_keywords,
            r.confidence_threshold == threshold,
    {
        OverlayBuster { dismiss_keywords: self.dismiss_keywords, confidence_threshold: threshold }
    }

    fn hits(&self, e: &DOMElementNode) -> (b: bool)
        ensures
            b == is_candidate(e@, keywords_view(self.dismiss_keywords@)),
    {
        let raw = chars_of(e.text.as_str());
        let text = trim_chars(&raw);
        let aria = match e.get_attribute("aria-label") {
            Some(a) => chars_of(a),
            None => Vec::new(),
        };
        proof {
            assert(aria@ == label_of(e@));
        }
        let ghost kws = keywords_view(self.dismiss_keywords@);
        let mut i: usize = 0;
        while i < self.dismiss_keywords.len()
            invariant
                kws == keywords_view(self.dismiss_keywords@),
                i <= self.dismiss_keywords@.len(),
                text@ == trim(e@.text),
                aria@ == label_of(e@),
                forall|j: int| 0 <= j < i ==> !keyword_hit(e@, kws[j]),
            decreases self.dismiss_keywords@.len() - i,
        {
            let k = chars_of(self.dismiss_keywords[i].as_str());
            assert(kws[i as int] == k@);
            if contains_chars(&text, &k) || contains_chars(&aria, &k) || eq_ignore_ascii_chars(&text, &k)
                || eq_ignore_ascii_chars(&aria, &k) {
                return true;
            }
            i += 1;
        }
        false
    }

    /// The nodes that look like dismiss buttons, in document order.
    pub fn find_overlay_candidates<'a>(&self, elements: &'a [DOMElementNode]) -> (r: Vec<&'a DOMElementNode>)
        ensures
            r@.len() == candidate_indices(elements@, keywords_view(self.dismiss_keywords@)).len(),
            forall|i: int| 0 <= i < r@.len() ==> *r@[i] == elements@[candidate_indices(elements@, keywords_view(self.dismiss_keywords@))[i]],
    {
        let ghost kws = keywords_view(self.dismiss_keywords@);
        let mut out: Vec<&'a DOMElementNode> = Vec::new();
        let mut i: usize = 0;
        while i < elements.len()
            invariant
                kws == keywords_view(self.dismiss_keywords@),
                i <= elements@.len(),
                out@.len() == candidate_indices(elements@.subrange(0, i as int), kws).len(),
                forall|j: int| 0 <= j < out@.len() ==> *out@[j] == elements@[candidate_indices(elements@.subrange(0, i as int), kws)[j]],
                forall|j: int| 0 <= j < out@.len() ==> 0 <= #[trigger] candidate_indices(elements@.subrange(0, i as int), kws)[j] < i,
            decreases elements@.len() - i,
        {
            proof {
                let t = elements@.subrange(0, i + 1);
                assert(t.drop_last() =~= elements@.subrange(0, i as int));
                assert(t.last() == elements@[i as int]);
            }
            if self.hits(&elements[i]) {
                out.push(&elements[i]);
            }
            i += 1;
        }
        assert(elements@.subrange(0, elements@.len() as int) =~= elements@);
        out
    }

    /// The choice criteria for the candidates: node id to `tag [text]`.
    pub fn criteria(candidates: &Vec<&DOMElementNode>) -> (m: StrMap)
        ensures
            m.view() == criteria_of(candidates@.map_values(|e: &DOMElementNode| (*e)@)),
    {
        let ghost ns = candidates@.map_values(|e: &DOMElementNode| (*e)@);
        let mut m = StrMap::new();
        let mut i: usize = 0;
        while i < candidates.len()
            invariant
                ns == candidates@.map_values(|e: &DOMElementNode| (*e)@),
                i <= candidates@.len(),
                m.view() == criteria_of(ns.subrange(0, i as int)),
            decreases candidates@.len() - i,
        {
            let c = candidates[i];
            let raw = chars_of(c.text.as_str());
            let t = trim_chars(&raw);
            let ts = string_of(&t);
            let mut label = c.tag.clone();
            label.append(" [");
            label.append(ts.as_str());
            label.append("]");
            m.insert(c.node_id.as_str(), label.as_str());
            proof {
                let sub = ns.subrange(0, i + 1);
                assert(sub.drop_last() =~= ns.subrange(0, i as int));
                assert(sub.last() == ns[i as int]);
            }
            i += 1;
        }
        assert(ns.subrange(0, ns.len() as int) =~= ns);
        m
    }

    /// The node to click for the engine's pick: only at or above the threshold.
    pub fn dismissal(&self, choice: (String, Confidence)) -> (r: Option<String>)
        ensures
            choice.1 >= self.confidence_threshold ==> r == Some(choice.0),
            choice.1 < self.confidence_threshold ==> r is None,
    {
        if choice.1 >= self.confidence_threshold {
            Some(choice.0)
        } else {
            None
        }
    }
}

/// The question the fast engine answers to pick the dismiss button.
pub fn dismiss_instruction() -> (r: String)
    ensures
        r@ == "Which button closes or dismisses the overlay?"@,
{
    String::from_str("Which button closes or dismisses the overlay?")
}

proof fn lemma_candidate_indices(es: Seq<DOMElementNode>, kws: Seq<Seq<char>>)
    ensures
        forall|i: int| 0 <= i < es.len() && is_candidate(#[trigger] es[i]@, kws) ==> candidate_indices(es, kws).contains(i),
        forall|j: int| 0 <= j < candidate_indices(es, kws).len() ==> {
            let i = #[trigger] candidate_indices(es, kws)[j];
            0 <= i < es.len() && is_candidate(es[i]@, kws)
        },
    decreases es.len(),
{
    if es.len() > 0 {
        let u = es.drop_last();
        lemma_candidate_indices(u, kws);
        let prev = candidate_indices(u, kws);
        assert forall|i: int| 0 <= i < es.len() && is_candidate(#[trigger] es[i]@, kws) implies candidate_indices(
            es,
            kws,
        ).contains(i) by {
            if i < es.len() - 1 {
                assert(u[i] == es[i]);
                let j = choose|j: int| 0 <= j < prev.len() && prev[j] == i;
                if is_candidate(es.last()@, kws) {
                    assert(candidate_indices(es, kws)[j] == i);
                } else {
                    assert(candidate_indices(es, kws)[j] == i);
                }
            } else {
                assert(candidate_indices(es, kws)[prev.len() as int] == i);
            }
        }
        assert forall|j: int| 0 <= j < candidate_indices(es, kws).len() implies {
            let i = #[trigger] candidate_indices(es, kws)[j];
            0 <= i < es.len() && is_candidate(es[i]@, kws)
        } by {
            if j < prev.len() {
                let i = prev[j];
                assert(candidate_indices(es, kws)[j] == i);
                assert(u[i] == es[i]);
            }
        }
    }
}

/// Dismiss candidates: a node is one exactly when its trimmed text or its ARIA
/// label contains a dismiss keyword, or equals one up to ASCII case; so a
/// close button known only by its label (an icon button labelled
/// "Close dialog") is found, and the candidates are exactly such nodes.
pub proof fn law_dismiss_candidates(es: Seq<DOMElementNode>, kws: Seq<Seq<char>>)
    ensures
        forall|i: int, k: int, a: Seq<char>|
            0 <= i < es.len() && 0 <= k < kws.len() && lookup(#[trigger] es[i]@.attrs, "aria-label"@) == Some(a)
                && #[trigger] contains(a, kws[k]) ==> candidate_indices(es, kws).contains(i),
        forall|i: int, k: int|
            0 <= i < es.len() && 0 <= k < kws.len() && #[trigger] contains(trim(es[i]@.text), #[trigger] kws[k])
                ==> candidate_indices(es, kws).contains(i),
        forall|j: int| 0 <= j < candidate_indices(es, kws).len() ==> {
            let i = #[trigger] candidate_indices(es, kws)[j];
            &&& 0 <= i < es.len()
            &&& exists|k: int| #![trigger kws[k]] 0 <= k < kws.len() && {
                let aria = match lookup(es[i]@.attrs, "aria-label"@) {
                    Some(a) => a,
                    None => Seq::<char>::empty(),
                };
                contains(trim(es[i]@.text), kws[k]) || contains(aria, kws[k]) || eq_ignore_ascii(trim(es[i]@.text), kws[k])
                    || eq_ignore_ascii(aria, kws[k])
            }
        },
{
    lemma_candidate_indices(es, kws);
    assert forall|i: int, k: int, a: Seq<char>|
        0 <= i < es.len() && 0 <= k < kws.len() && lookup(#[trigger] es[i]@.attrs, "aria-label"@) == Some(a)
            && #[trigger] contains(a, kws[k]) implies candidate_indices(es, kws).contains(i) by {
        assert(keyword_hit(es[i]@, kws[k]));
        assert(is_candidate(es[i]@, kws));
    }
    assert forall|i: int, k: int|
        0 <= i < es.len() && 0 <= k < kws.len() && #[trigger] contains(trim(es[i]@.text), #[trigger] kws[k])
            implies candidate_indices(es, kws).contains(i) by {
        assert(keyword_hit(es[i]@, kws[k]));
        assert(is_candidate(es[i]@, kws));
    }
}

} // verus!
