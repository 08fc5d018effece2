//! The fast engine's judgement rules: probe polarity, contrastive decisions,
//! recovery-verdict assembly and contrastive memory matching.
use vstd::prelude::*;
use crate::types::{
    blocker_of_key, recovery_of_key, BlockerClass, Confidence, MemoryEntry, RecoveryKind,
    RecoveryVerdict, CONF_ONE,
};

verus! {

/// The probability that a probe's statement holds, from its verdict and confidence.
pub open spec fn polarity(r: bool, c: int) -> int {
    if r { c } else { CONF_ONE - c }
}

/// Contrastive judgement: accept only when the positive statement reaches the
/// threshold and its negation stays at or below `1 - threshold`; the confidence
/// is `min(pos, 1 - neg)`.
pub open spec fn contrastive(pos: int, neg: int, t: int) -> (bool, int) {
    (pos >= t && neg <= CONF_ONE - t, if pos <= CONF_ONE - neg { pos } else { CONF_ONE - neg })
}

/// The contrastive judgement of two raw probabilities.
pub fn contrastive_decide(pos: Confidence, neg: Confidence, threshold: Confidence) -> (r: (bool, Confidence))
    requires
        pos <= CONF_ONE,
        neg <= CONF_ONE,
        threshold <= CONF_ONE,
    ensures
        (r.0, r.1 as int) == contrastive(pos as int, neg as int, threshold as int),
{
    let decided = pos >= threshold && neg <= 10000 - threshold;
    let inv = 10000 - neg;
    let conf = if pos <= inv { pos } else { inv };
    (decided, conf)
}

/// The default contrastive probe: both statements are probed, each read
/// through its polarity, then judged contrastively.
pub fn contrastive_from_probes(pos: (bool, Confidence), neg: (bool, Confidence), threshold: Confidence) -> (r: (bool, Confidence))
    requires
        pos.1 <= CONF_ONE,
        neg.1 <= CONF_ONE,
        threshold <= CONF_ONE,
    ensures
        (r.0, r.1 as int) == contrastive(polarity(pos.0, pos.1 as int), polarity(neg.0, neg.1 as int), threshold as int),
{
    let p = if pos.0 { pos.1 } else { 10000 - pos.1 };
    let n = if neg.0 { neg.1 } else { 10000 - neg.1 };
    contrastive_decide(p, n, threshold)
}

/// A contrastive acceptance always carries at least the threshold as confidence,
/// and a statement and its negation cannot both be confidently true.
pub proof fn law_contrastive_sound(pos: int, neg: int, t: int)
    requires
        0 <= pos <= CONF_ONE,
        0 <= neg <= CONF_ONE,
        0 <= t <= CONF_ONE,
    ensures
        contrastive(pos, neg, t).0 ==> contrastive(pos, neg, t).1 >= t,
        neg > CONF_ONE - t ==> !contrastive(pos, neg, t).0,
        0 <= contrastive(pos, neg, t).1 <= CONF_ONE,
{
}

/// A single boolean probe read from a raw probability: true above one half.
pub fn probe_of_probability(p: Confidence) -> (r: (bool, Confidence))
    ensures
        r.0 == (p > CONF_ONE / 2),
        r.1 == p,
{
    (p > 5000, p)
}

/// The achieved threshold of the default recovery graph.
pub const ACHIEVED_THRESHOLD: u32 = 8500;
/// The blocked threshold of every recovery graph.
pub const BLOCKED_THRESHOLD: u32 = 8000;
/// The memory-match threshold.
pub const MEMORY_THRESHOLD: u32 = 8000;

/// A choice answer: key and confidence.
pub open spec fn choice_view(c: (String, Confidence)) -> (Seq<char>, Confidence) {
    (c.0@, c.1)
}

pub open spec fn opt_choice_view(c: Option<(String, Confidence)>) -> Option<(Seq<char>, Confidence)> {
    match c {
        Some(x) => Some(choice_view(x)),
        None => None,
    }
}

/// Assembles a recovery verdict from its separately judged parts: the blocker
/// and recovery keys are read from the catalogues (unknown keys fall back to
/// "no blocker" and "escalate").
pub fn assemble_verdict(
    achieved: (bool, Confidence),
    blocked: (bool, Confidence),
    blocker_choice: (&str, Confidence),
    recovery_choice: (&str, Confidence),
    target: Option<(String, Confidence)>,
    recovery_target: Option<(String, Confidence)>,
) -> (v: RecoveryVerdict)
    ensures
        v.achieved == achieved,
        v.blocked == blocked,
        v.blocker == (blocker_of_key(blocker_choice.0@), blocker_choice.1),
        v.recovery == (recovery_of_key(recovery_choice.0@), recovery_choice.1),
        v.target == target,
        v.recovery_target == recovery_target,
{
    RecoveryVerdict {
        achieved,
        blocked,
        blocker: (BlockerClass::from_key(blocker_choice.0), blocker_choice.1),
        recovery: (RecoveryKind::from_key(recovery_choice.0), recovery_choice.1),
        target,
        recovery_target,
    }
}

/// The answers of a single batched recovery-graph inference.
pub struct GraphAnswers {
    pub achieved_pos: Confidence,
    pub achieved_neg: Confidence,
    pub blocked_pos: Confidence,
    pub blocked_neg: Confidence,
    /// Missing answers are `None`.
    pub blocker: Option<(String, Confidence)>,
    pub recovery: Option<(String, Confidence)>,
    pub target: Option<(String, Confidence)>,
    pub recovery_target: Option<(String, Confidence)>,
}

/// A choice answer that may be missing: a missing one counts as an empty key with zero confidence.
pub open spec fn answer_or_empty(c: Option<(String, Confidence)>) -> (Seq<char>, Confidence) {
    match c {
        Some(x) => (x.0@, x.1),
        None => (Seq::<char>::empty(), 0),
    }
}

fn take_answer(c: Option<(String, Confidence)>) -> (r: (String, Confidence))
    ensures
        (r.0@, r.1) == answer_or_empty(c),
{
    match c {
        Some(x) => x,
        None => (String::new(), 0),
    }
}

/// Reads a batched recovery-graph answer: contrastive achieved and blocked
/// judgements, catalogue lookups, and target choices when there were candidates.
pub fn verdict_from_answers(a: GraphAnswers, achieved_threshold: Confidence, has_candidates: bool) -> (v: RecoveryVerdict)
    requires
        a.achieved_pos <= CONF_ONE,
        a.achieved_neg <= CONF_ONE,
        a.blocked_pos <= CONF_ONE,
        a.blocked_neg <= CONF_ONE,
        achieved_threshold <= CONF_ONE,
    ensures
        (v.achieved.0, v.achieved.1 as int) == contrastive(a.achieved_pos as int, a.achieved_neg as int, achieved_threshold as int),
        (v.blocked.0, v.blocked.1 as int) == contrastive(a.blocked_pos as int, a.blocked_neg as int, BLOCKED_THRESHOLD as int),
        v.blocker == (blocker_of_key(answer_or_empty(a.blocker).0), answer_or_empty(a.blocker).1),
        v.recovery == (recovery_of_key(answer_or_empty(a.recovery).0), answer_or_empty(a.recovery).1),
        has_candidates ==> opt_choice_view(v.target) == Some(answer_or_empty(a.target)),
        has_candidates ==> opt_choice_view(v.recovery_target) == Some(answer_or_empty(a.recovery_target)),
        !has_candidates ==> v.target is None && v.recovery_target is None,
{
    let achieved = contrastive_decide(a.achieved_pos, a.achieved_neg, achieved_threshold);
    let blocked = contrastive_decide(a.blocked_pos, a.blocked_neg, 8000);
    let b = take_answer(a.blocker);
    let r = take_answer(a.recovery);
    let (target, recovery_target) = if has_candidates {
        (Some(take_answer(a.target)), Some(take_answer(a.recovery_target)))
    } else {
        (None, None)
    };
    assemble_verdict(achieved, blocked, (b.0.as_str(), b.1), (r.0.as_str(), r.1), target, recovery_target)
}

/// The entry that is reliable (rate at least one half) and whose contrastive
/// judgement hit with the highest confidence; the earliest wins ties.
pub open spec fn best_memory(hits: Seq<(bool, Confidence)>, reliable: Seq<bool>, n: int) -> Option<(int, Confidence)>
    decreases n,
{
    if n <= 0 {
        None
    } else {
        let prev = best_memory(hits, reliable, n - 1);
        let i = n - 1;
        if hits[i].0 && reliable[i] && (match prev {
            Some(p) => hits[i].1 > p.1,
            None => true,
        }) {
            Some((i, hits[i].1))
        } else {
            prev
        }
    }
}

pub open spec fn reliable_of(entries: Seq<MemoryEntry>) -> Seq<bool> {
    entries.map_values(|e: MemoryEntry| e.success_count + e.failure_count > 0 && 2 * e.success_count >= e.success_count + e.failure_count)
}

/// Picks the memory entry to apply from the contrastive hit of each entry.
pub fn select_memory(hits: &Vec<(bool, Confidence)>, entries: &Vec<MemoryEntry>) -> (r: Option<(usize, Confidence)>)
    requires
        hits@.len() == entries@.len(),
    ensures
        match (r, best_memory(hits@, reliable_of(entries@), hits@.len() as int)) {
            (Some(x), Some(y)) => x.0 as int == y.0 && x.1 == y.1,
            (None, None) => true,
            _ => false,
        },
        r matches Some(x) ==> x.0 < entries@.len(),
{
    let mut best: Option<(usize, Confidence)> = None;
    let mut i: usize = 0;
    while i < hits.len()
        invariant
            hits@.len() == entries@.len(),
            i <= hits@.len(),
            match (best, best_memory(hits@, reliable_of(entries@), i as int)) {
                (Some(x), Some(y)) => x.0 as int == y.0 && x.1 == y.1,
                (None, None) => true,
                _ => false,
            },
            best matches Some(x) ==> x.0 < i,
        decreases hits@.len() - i,
    {
        let (hit, conf) = hits[i];
        let better = match best {
            Some((_, c)) => conf > c,
            None => true,
        };
        if hit && entries[i].reliable() && better {
            best = Some((i, conf));
        }
        i += 1;
    }
    best
}

} // verus!
