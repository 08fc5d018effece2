//! The contrastive recovery memory: which recovery worked in which situation.
use vstd::prelude::*;
use vstd::string::*;
use crate::text::str_eq;
use crate::types::{rate_lt, MemoryEntry, RecoveryKind};

verus! {

/// The contents of a memory entry.
pub struct EntryView {
    pub applicable_desc: Seq<char>,
    pub inapplicable_desc: Seq<char>,
    pub recovery: RecoveryKind,
    pub target: Seq<char>,
    pub success_count: u32,
    pub failure_count: u32,
}

pub open spec fn entry_view(e: MemoryEntry) -> EntryView {
    EntryView {
        applicable_desc: e.applicable_desc@,
        inapplicable_desc: e.inapplicable_desc@,
        recovery: e.recovery,
        target: e.target@,
        success_count: e.success_count,
        failure_count: e.failure_count,
    }
}

pub open spec fn entries_view(s: Seq<MemoryEntry>) -> Seq<EntryView> {
    s.map_values(|e: MemoryEntry| entry_view(e))
}

/// Index of the first entry with the lowest success rate.
pub open spec fn worst_upto(s: Seq<EntryView>, n: int) -> int
    decreases n,
{
    if n <= 1 {
        0
    } else {
        let w = worst_upto(s, n - 1);
        let c = s[n - 1];
        if rate_lt(c.success_count, c.failure_count, s[w].success_count, s[w].failure_count) {
            n - 1
        } else {
            w
        }
    }
}

pub open spec fn worst(s: Seq<EntryView>) -> int {
    worst_upto(s, s.len() as int)
}

/// Removes lowest-rate entries (the oldest among equals) until at most `max` remain.
pub open spec fn evict(s: Seq<EntryView>, max: int) -> Seq<EntryView>
    decreases s.len(),
{
    if s.len() <= max || s.len() == 0 {
        s
    } else {
        proof {
            lemma_worst_bound(s, s.len() as int);
        }
        evict(s.remove(worst(s)), max)
    }
}

pub open spec fn same_situation(e: EntryView, app: Seq<char>, target: Seq<char>) -> bool {
    e.applicable_desc == app && e.target == target
}

/// The first entry from position `i` on recording `(app, target)`.
pub open spec fn find_from(s: Seq<EntryView>, app: Seq<char>, target: Seq<char>, i: int) -> Option<int>
    decreases s.len() - i,
{
    if i < 0 || i >= s.len() {
        None
    } else if same_situation(s[i], app, target) {
        Some(i)
    } else {
        find_from(s, app, target, i + 1)
    }
}

/// The entry recording `(app, target)`: the first with that situation and target.
pub open spec fn find_entry(s: Seq<EntryView>, app: Seq<char>, target: Seq<char>) -> Option<int> {
    find_from(s, app, target, 0)
}

pub proof fn lemma_find_from(s: Seq<EntryView>, app: Seq<char>, target: Seq<char>, i: int)
    requires
        0 <= i,
    ensures
        match find_from(s, app, target, i) {
            Some(k) => i <= k < s.len() && same_situation(s[k], app, target),
            None => forall|j: int| i <= j < s.len() ==> !same_situation(s[j], app, target),
        },
    decreases s.len() - i,
{
    if i < s.len() && !same_situation(s[i], app, target) {
        lemma_find_from(s, app, target, i + 1);
    }
}

pub open spec fn bump(e: EntryView, succeeded: bool) -> EntryView {
    if succeeded {
        EntryView { success_count: (e.success_count + 1) as u32, ..e }
    } else {
        EntryView { failure_count: (e.failure_count + 1) as u32, ..e }
    }
}

/// The memory after recording one recovery outcome: a known situation and
/// target gets its count bumped; an unknown one is added only when the
/// recovery succeeded, and the memory is then held to its capacity.
pub open spec fn recorded(
    s: Seq<EntryView>,
    max: int,
    app: Seq<char>,
    inapp: Seq<char>,
    kind: RecoveryKind,
    target: Seq<char>,
    succeeded: bool,
) -> Seq<EntryView> {
    match find_entry(s, app, target) {
        Some(i) => s.update(i, bump(s[i], succeeded)),
        None => if succeeded {
            evict(
                s.push(
                    EntryView {
                        applicable_desc: app,
                        inapplicable_desc: inapp,
                        recovery: kind,
                        target,
                        success_count: 1,
                        failure_count: 0,
                    },
                ),
                max,
            )
        } else {
            s
        },
    }
}

/// The count that recording an outcome bumps (that of the entry already
/// recording the situation and target, if any) is below its maximum.
pub open spec fn record_fits(s: Seq<EntryView>, app: Seq<char>, target: Seq<char>, succeeded: bool) -> bool {
    find_entry(s, app, target) matches Some(i) ==> (if succeeded {
        s[i].success_count < u32::MAX
    } else {
        s[i].failure_count < u32::MAX
    })
}

/// The memory of recovery outcomes, bounded by `max_entries`.
#[derive(Debug)]
pub struct RecoveryMemory {
    pub entries: Vec<MemoryEntry>,
    /// Capacity; beyond it the lowest-rate entries are evicted.
    pub max_entries: usize,
    /// Where the memory is persisted (`None`: in memory only).
    pub persist_path: Option<String>,
}

pub proof fn lemma_worst_bound(s: Seq<EntryView>, n: int)
    requires
        1 <= n <= s.len(),
    ensures
        0 <= worst_upto(s, n) < n,
    decreases n,
{
    if n > 1 {
        lemma_worst_bound(s, n - 1);
    }
}

proof fn lemma_evict_len(s: Seq<EntryView>, max: int)
    requires
        max >= 0,
    ensures
        evict(s, max).len() == if s.len() <= max { s.len() as int } else { max },
    decreases s.len(),
{
    if s.len() > max && s.len() > 0 {
        lemma_worst_bound(s, s.len() as int);
        lemma_evict_len(s.remove(worst(s)), max);
    }
}

impl RecoveryMemory {
    /// A memory persisted under `home/.munin/recovery.json` (in memory only without a home).
    pub fn new(home: Option<&str>) -> (r: Self)
        ensures
            r.entries@.len() == 0,
            r.max_entries == 100,
            match home {
                Some(h) => r.persist_path matches Some(p) && p@ == h@ + "/.munin/recovery.json"@,
                None => r.persist_path is None,
            },
    {
        let persist_path = match home {
            Some(h) => {
                let mut p = String::from_str(h);
                p.append("/.munin/recovery.json");
                Some(p)
            },
            None => None,
        };
        RecoveryMemory { entries: Vec::new(), max_entries: 100, persist_path }
    }

    /// A memory that is never persisted.
    pub fn in_memory() -> (r: Self)
        ensures
            r.entries@.len() == 0,
            r.max_entries == 100,
            r.persist_path is None,
    {
        RecoveryMemory { entries: Vec::new(), max_entries: 100, persist_path: None }
    }

    /// Records the outcome of a recovery (see `recorded`).
    pub fn record(
        &mut self,
        applicable_desc: &str,
        inapplicable_desc: &str,
        recovery: RecoveryKind,
        target: &str,
        succeeded: bool,
    )
        requires
            record_fits(entries_view(old(self).entries@), applicable_desc@, target@, succeeded),
        ensures
            entries_view(final(self).entries@) == recorded(
                entries_view(old(self).entries@),
                old(self).max_entries as int,
                applicable_desc@,
                inapplicable_desc@,
                recovery,
                target@,
                succeeded,
            ),
            final(self).max_entries == old(self).max_entries,
            final(self).persist_path == old(self).persist_path,
    {
        let ghost s = entries_view(self.entries@);
        let n = self.entries.len();
        let mut i: usize = 0;
        while i < n
            invariant
                n == self.entries@.len(),
                s == entries_view(self.entries@),
                self.entries@ == old(self).entries@,
                self.max_entries == old(self).max_entries,
                self.persist_path == old(self).persist_path,
                i <= n,
                find_entry(s, applicable_desc@, target@) == find_from(s, applicable_desc@, target@, i as int),
                record_fits(s, applicable_desc@, target@, succeeded),
            decreases n - i,
        {
            if str_eq(self.entries[i].applicable_desc.as_str(), applicable_desc) && str_eq(self.entries[i].target.as_str(), target) {
                assert(find_entry(s, applicable_desc@, target@) == Some(i as int));
                assert(s[i as int] == entry_view(self.entries@[i as int]));
                let mut entries: Vec<MemoryEntry> = Vec::new();
                std::mem::swap(&mut entries, &mut self.entries);
                let mut e = entries.remove(i);
                if succeeded {
                    e.success_count = e.success_count + 1;
                } else {
                    e.failure_count = e.failure_count + 1;
                }
                entries.insert(i, e);
                self.entries = entries;
                proof {
                    assert(entries_view(self.entries@) =~= s.update(i as int, bump(s[i as int], succeeded)));
                }
                return;
            }
            i += 1;
        }
        let ghost max0 = self.max_entries;
        if succeeded {
            self.entries.push(
                MemoryEntry {
                    applicable_desc: String::from_str(applicable_desc),
                    inapplicable_desc: String::from_str(inapplicable_desc),
                    recovery,
                    target: String::from_str(target),
                    success_count: 1,
                    failure_count: 0,
                },
            );
            proof {
                assert(entries_view(self.entries@) =~= s.push(
                    EntryView {
                        applicable_desc: applicable_desc@,
                        inapplicable_desc: inapplicable_desc@,
                        recovery,
                        target: target@,
                        success_count: 1,
                        failure_count: 0,
                    },
                ));
            }
            self.evict_if_needed();
        }
    }

    /// Marks entry `idx` as having failed once more (no effect out of range).
    pub fn mark_failure(&mut self, idx: usize)
        requires
            idx < old(self).entries@.len() ==> old(self).entries@[idx as int].failure_count < u32::MAX,
        ensures
            entries_view(final(self).entries@) == (if idx < old(self).entries@.len() {
                entries_view(old(self).entries@).update(idx as int, bump(entry_view(old(self).entries@[idx as int]), false))
            } else {
                entries_view(old(self).entries@)
            }),
            final(self).max_entries == old(self).max_entries,
            final(self).persist_path == old(self).persist_path,
    {
        if idx < self.entries.len() {
            let ghost s = entries_view(self.entries@);
            let mut entries: Vec<MemoryEntry> = Vec::new();
            std::mem::swap(&mut entries, &mut self.entries);
            let mut e = entries.remove(idx);
            e.failure_count = e.failure_count + 1;
            entries.insert(idx, e);
            self.entries = entries;
            proof {
                assert(entries_view(self.entries@) =~= s.update(idx as int, bump(s[idx as int], false)));
            }
        }
    }

    /// Marks entry `idx` as having succeeded once more (no effect out of range).
    pub fn mark_success(&mut self, idx: usize)
        requires
            idx < old(self).entries@.len() ==> old(self).entries@[idx as int].success_count < u32::MAX,
        ensures
            entries_view(final(self).entries@) == (if idx < old(self).entries@.len() {
                entries_view(old(self).entries@).update(idx as int, bump(entry_view(old(self).entries@[idx as int]), true))
            } else {
                entries_view(old(self).entries@)
            }),
            final(self).max_entries == old(self).max_entries,
            final(self).persist_path == old(self).persist_path,
    {
        if idx < self.entries.len() {
            let ghost s = entries_view(self.entries@);
            let mut entries: Vec<MemoryEntry> = Vec::new();
            std::mem::swap(&mut entries, &mut self.entries);
            let mut e = entries.remove(idx);
            e.success_count = e.success_count + 1;
            entries.insert(idx, e);
            self.entries = entries;
            proof {
                assert(entries_view(self.entries@) =~= s.update(idx as int, bump(s[idx as int], true)));
            }
        }
    }

    /// Index of the first entry with the lowest success rate.
    fn worst_index(&self) -> (w: usize)
        requires
            self.entries@.len() > 0,
        ensures
            w as int == worst(entries_view(self.entries@)),
            w < self.entries@.len(),
    {
        let ghost s = entries_view(self.entries@);
        let n = self.entries.len();
        let mut w: usize = 0;
        let mut i: usize = 1;
        while i < n
            invariant
                n == self.entries@.len(),
                s == entries_view(self.entries@),
                1 <= i <= n,
                w as int == worst_upto(s, i as int),
                w < i,
            decreases n - i,
        {
            if crate::types::rate_less(&self.entries[i], &self.entries[w]) {
                w = i;
            }
            i += 1;
        }
        w
    }

    /// Evicts lowest-rate entries (oldest first among equals) while over capacity.
    pub fn evict_if_needed(&mut self)
        ensures
            entries_view(final(self).entries@) == evict(entries_view(old(self).entries@), old(self).max_entries as int),
            final(self).max_entries == old(self).max_entries,
            final(self).persist_path == old(self).persist_path,
    {
        while self.entries.len() > self.max_entries
            invariant
                self.max_entries == old(self).max_entries,
                self.persist_path == old(self).persist_path,
                evict(entries_view(self.entries@), self.max_entries as int) == evict(
                    entries_view(old(self).entries@),
                    old(self).max_entries as int,
                ),
            decreases self.entries@.len(),
        {
            let ghost s = entries_view(self.entries@);
            let w = self.worst_index();
            let mut entries: Vec<MemoryEntry> = Vec::new();
            std::mem::swap(&mut entries, &mut self.entries);
            let _removed = entries.remove(w);
            self.entries = entries;
            proof {
                assert(entries_view(self.entries@) =~= s.remove(w as int));
            }
        }
    }
}

/// Capacity law: recording never takes a memory within its capacity beyond it,
/// and recording an outcome for a known situation keeps the number of entries.
pub proof fn law_record_capacity(
    s: Seq<EntryView>,
    max: int,
    app: Seq<char>,
    inapp: Seq<char>,
    kind: RecoveryKind,
    target: Seq<char>,
    succeeded: bool,
)
    requires
        0 <= max,
        s.len() <= max,
    ensures
        recorded(s, max, app, inapp, kind, target, succeeded).len() <= max,
        find_entry(s, app, target) is Some ==> recorded(s, max, app, inapp, kind, target, succeeded).len() == s.len(),
{
    lemma_find_from(s, app, target, 0);
    match find_entry(s, app, target) {
        Some(i) => {},
        None => {
            if succeeded {
                let e = EntryView {
                    applicable_desc: app,
                    inapplicable_desc: inapp,
                    recovery: kind,
                    target,
                    success_count: 1,
                    failure_count: 0,
                };
                lemma_evict_len(s.push(e), max);
            }
        },
    }
}

/// A recorded success of a new situation is remembered with one success, unless
/// the capacity is zero; a known situation gains exactly one success or failure.
pub proof fn law_record_counts(
    s: Seq<EntryView>,
    max: int,
    app: Seq<char>,
    inapp: Seq<char>,
    kind: RecoveryKind,
    target: Seq<char>,
    succeeded: bool,
    i: int,
)
    requires
        find_entry(s, app, target) == Some(i),
    ensures
        0 <= i < s.len(),
        recorded(s, max, app, inapp, kind, target, succeeded)[i].success_count == (if succeeded {
            s[i].success_count + 1
        } else {
            s[i].success_count as int
        }) as u32,
        recorded(s, max, app, inapp, kind, target, succeeded)[i].failure_count == (if succeeded {
            s[i].failure_count as int
        } else {
            s[i].failure_count + 1
        }) as u32,
{
    lemma_find_from(s, app, target, 0);
}

/// Entry `a` has a strictly lower success rate than entry `b`.
pub open spec fn rated_below(a: EntryView, b: EntryView) -> bool {
    rate_lt(a.success_count, a.failure_count, b.success_count, b.failure_count)
}

proof fn lemma_rate_order(a: EntryView, b: EntryView, c: EntryView)
    ensures
        !rated_below(a, a),
        rated_below(a, b) && rated_below(b, c) ==> rated_below(a, c),
        rated_below(a, b) && !rated_below(c, b) ==> rated_below(a, c),
{
    let (s1, f1, s2, f2, s3, f3) = (
        a.success_count as int,
        a.failure_count as int,
        b.success_count as int,
        b.failure_count as int,
        c.success_count as int,
        c.failure_count as int,
    );
    let (t1, t2, t3) = (s1 + f1, s2 + f2, s3 + f3);
    assert(s1 * t2 >= 0 && s2 * t3 >= 0 && s3 * t2 >= 0) by (nonlinear_arith)
        requires
            s1 >= 0,
            s2 >= 0,
            s3 >= 0,
            t2 >= 0,
            t3 >= 0,
    ;
    if rated_below(a, b) {
        if t1 == 0 {
            assert(s2 > 0 && t2 > 0);
            if t3 > 0 {
                if rated_below(b, c) || !rated_below(c, b) {
                    assert(s2 * t3 <= s3 * t2);
                    assert(s3 > 0) by (nonlinear_arith)
                        requires
                            s2 * t3 <= s3 * t2,
                            s2 > 0,
                            t3 > 0,
                            s3 >= 0,
                    ;
                }
            }
        } else {
            assert(t2 > 0);
            assert(s1 * t2 < s2 * t1);
            if t3 == 0 {
                assert(!rated_below(b, c));
                assert(s2 > 0) by (nonlinear_arith)
                    requires
                        s1 * t2 < s2 * t1,
                        s1 * t2 >= 0,
                        t1 > 0,
                        s2 >= 0,
                ;
                assert(rated_below(c, b));
            } else if rated_below(b, c) || !rated_below(c, b) {
                assert(s2 * t3 <= s3 * t2);
                assert(s1 * t3 < s3 * t1) by (nonlinear_arith)
                    requires
                        s1 * t2 < s2 * t1,
                        s2 * t3 <= s3 * t2,
                        t1 > 0,
                        t2 > 0,
                        t3 > 0,
                        s1 >= 0,
                        s2 >= 0,
                        s3 >= 0,
                ;
            }
        }
    }
}

proof fn lemma_worst_order(s: Seq<EntryView>, n: int)
    requires
        1 <= n <= s.len(),
    ensures
        0 <= worst_upto(s, n) < n,
        forall|j: int| 0 <= j < n ==> !rated_below(#[trigger] s[j], s[worst_upto(s, n)]),
        forall|j: int| 0 <= j < worst_upto(s, n) ==> rated_below(s[worst_upto(s, n)], #[trigger] s[j]),
    decreases n,
{
    if n > 1 {
        lemma_worst_order(s, n - 1);
        let w = worst_upto(s, n - 1);
        let c = s[n - 1];
        if rated_below(c, s[w]) {
            assert forall|j: int| 0 <= j < n implies !rated_below(#[trigger] s[j], s[n - 1]) by {
                lemma_rate_order(s[j], c, s[w]);
            }
            assert forall|j: int| 0 <= j < n - 1 implies rated_below(s[n - 1], #[trigger] s[j]) by {
                lemma_rate_order(c, s[w], s[j]);
            }
        } else {
            assert forall|j: int| 0 <= j < n implies !rated_below(#[trigger] s[j], s[w]) by {
                if j == n - 1 {
                    assert(!rated_below(c, s[w]));
                }
            }
        }
    } else {
        lemma_rate_order(s[0], s[0], s[0]);
    }
}

/// Eviction law: over capacity, the memory drops one entry whose success rate
/// no other entry is below, and every entry before it rates strictly higher
/// (so among equally low entries the oldest goes), then goes on with the rest.
pub proof fn law_evict_drops_worst(s: Seq<EntryView>, max: int)
    requires
        0 <= max < s.len(),
    ensures
        0 <= worst(s) < s.len(),
        evict(s, max) == evict(s.remove(worst(s)), max),
        forall|j: int| 0 <= j < s.len() ==> !rated_below(#[trigger] s[j], s[worst(s)]),
        forall|j: int| 0 <= j < worst(s) ==> rated_below(s[worst(s)], #[trigger] s[j]),
{
    lemma_worst_order(s, s.len() as int);
}

/// No two entries record the same situation and target.
pub open spec fn situations_unique(s: Seq<EntryView>) -> bool {
    forall|i: int, j: int|
        0 <= i < s.len() && 0 <= j < s.len() && i != j ==> !same_situation(
            #[trigger] s[i],
            (#[trigger] s[j]).applicable_desc,
            s[j].target,
        )
}

proof fn lemma_evict_unique(s: Seq<EntryView>, max: int)
    requires
        situations_unique(s),
    ensures
        situations_unique(evict(s, max)),
    decreases s.len(),
{
    if s.len() > max && s.len() > 0 {
        lemma_worst_bound(s, s.len() as int);
        let w = worst(s);
        let t = s.remove(w);
        assert forall|i: int, j: int| 0 <= i < t.len() && 0 <= j < t.len() && i != j implies !same_situation(
            #[trigger] t[i],
            (#[trigger] t[j]).applicable_desc,
            t[j].target,
        ) by {
            let si = if i < w { i } else { i + 1 };
            let sj = if j < w { j } else { j + 1 };
            assert(t[i] == s[si] && t[j] == s[sj]);
        }
        lemma_evict_unique(t, max);
    }
}

/// Uniqueness law: recording keeps one entry per situation and target, and
/// keeps a memory within its capacity within it.
pub proof fn law_record_unique(
    s: Seq<EntryView>,
    max: int,
    app: Seq<char>,
    inapp: Seq<char>,
    kind: RecoveryKind,
    target: Seq<char>,
    succeeded: bool,
)
    requires
        0 <= max,
        s.len() <= max,
        situations_unique(s),
    ensures
        situations_unique(recorded(s, max, app, inapp, kind, target, succeeded)),
        recorded(s, max, app, inapp, kind, target, succeeded).len() <= max,
{
    law_record_capacity(s, max, app, inapp, kind, target, succeeded);
    lemma_find_from(s, app, target, 0);
    match find_entry(s, app, target) {
        Some(k) => {
            let t = s.update(k, bump(s[k], succeeded));
            assert forall|i: int, j: int| 0 <= i < t.len() && 0 <= j < t.len() && i != j implies !same_situation(
                #[trigger] t[i],
                (#[trigger] t[j]).applicable_desc,
                t[j].target,
            ) by {
                assert(t[i].applicable_desc == s[i].applicable_desc && t[i].target == s[i].target);
                assert(t[j].applicable_desc == s[j].applicable_desc && t[j].target == s[j].target);
                assert(!same_situation(s[i], s[j].applicable_desc, s[j].target));
            }
        },
        None => {
            if succeeded {
                let e = EntryView {
                    applicable_desc: app,
                    inapplicable_desc: inapp,
                    recovery: kind,
                    target,
                    success_count: 1,
                    failure_count: 0,
                };
                let t = s.push(e);
                assert forall|i: int, j: int| 0 <= i < t.len() && 0 <= j < t.len() && i != j implies !same_situation(
                    #[trigger] t[i],
                    (#[trigger] t[j]).applicable_desc,
                    t[j].target,
                ) by {
                    if i == s.len() {
                        assert(t[j] == s[j]);
                        assert(!same_situation(s[j], app, target));
                    } else if j == s.len() {
                        assert(t[i] == s[i]);
                        assert(!same_situation(s[i], app, target));
                    } else {
                        assert(t[i] == s[i] && t[j] == s[j]);
                    }
                }
                lemma_evict_unique(t, max);
            }
        },
    }
}

proof fn lemma_evict_keeps_last(s: Seq<EntryView>, max: int, e: EntryView)
    requires
        1 <= max,
        s.len() >= 1,
        s.last() == e,
        forall|x: EntryView| !rated_below(e, x),
    ensures
        evict(s, max).len() >= 1,
        evict(s, max).last() == e,
    decreases s.len(),
{
    if s.len() > max {
        lemma_worst_order(s, s.len() as int);
        let w = worst(s);
        if w == s.len() - 1 {
            assert(rated_below(s[w], s[0]));
        }
        let t = s.remove(w);
        assert(t.last() == e);
        lemma_evict_keeps_last(t, max, e);
    }
}

/// Recording law for a new situation: a successful recovery of a situation and
/// target the memory does not know yet leaves the memory (of capacity at least
/// one) ending with an entry holding exactly that situation, its negation, the
/// recovery kind and the target, with one success and no failure; a failed one
/// leaves the memory as it was.
pub proof fn law_record_new_situation(
    s: Seq<EntryView>,
    max: int,
    app: Seq<char>,
    inapp: Seq<char>,
    kind: RecoveryKind,
    target: Seq<char>,
)
    requires
        1 <= max,
        find_entry(s, app, target) is None,
    ensures
        recorded(s, max, app, inapp, kind, target, true).len() >= 1,
        recorded(s, max, app, inapp, kind, target, true).last() == (EntryView {
            applicable_desc: app,
            inapplicable_desc: inapp,
            recovery: kind,
            target,
            success_count: 1,
            failure_count: 0,
        }),
        recorded(s, max, app, inapp, kind, target, false) == s,
{
    let e = EntryView {
        applicable_desc: app,
        inapplicable_desc: inapp,
        recovery: kind,
        target,
        success_count: 1,
        failure_count: 0,
    };
    assert forall|x: EntryView| !rated_below(e, x) by {}
    lemma_evict_keeps_last(s.push(e), max, e);
}

} // verus!
