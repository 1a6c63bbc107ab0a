//! Call counters and recent-call lists: how often each GL call and each
//! Objective-C selector was seen, the last few of each, and the busiest
//! names first.
use vstd::prelude::*;
use vstd::relations::{sorted_by, total_ordering};
use crate::memory::sat_add_u32;
use crate::text::{chars_of, str_eq};
use super::{MemoryArm32Backend, RuntimeCountEntry};

verus! {

/// How many recent GL calls and selectors are kept.
pub const RECENT_ENTRY_LIMIT: usize = 24;

/// `s` lexicographically at or before `t`, comparing characters by code
/// point (which is the byte order of their UTF-8 encoding).
pub open spec fn chars_le(s: Seq<char>, t: Seq<char>) -> bool
    decreases s.len(),
{
    if s.len() == 0 {
        true
    } else if t.len() == 0 {
        false
    } else if s[0] != t[0] {
        (s[0] as u32) < (t[0] as u32)
    } else {
        chars_le(s.drop_first(), t.drop_first())
    }
}

/// A counter entry as plain values: its name and its count.
pub open spec fn entry_view(e: RuntimeCountEntry) -> (Seq<char>, u32) {
    (e.name@, e.count)
}

/// The entries of `s` as plain values.
pub open spec fn entries_view(s: Seq<RuntimeCountEntry>) -> Seq<(Seq<char>, u32)> {
    s.map_values(|e: RuntimeCountEntry| entry_view(e))
}

/// The order of a count listing: higher counts first, equal counts by name.
pub open spec fn count_order(a: (Seq<char>, u32), b: (Seq<char>, u32)) -> bool {
    a.1 > b.1 || (a.1 == b.1 && chars_le(a.0, b.0))
}

/// `count_order` as a relation.
pub open spec fn count_order_rel() -> spec_fn((Seq<char>, u32), (Seq<char>, u32)) -> bool {
    |a: (Seq<char>, u32), b: (Seq<char>, u32)| count_order(a, b)
}

/// The index of the first entry named `key`, or the length when none is.
pub open spec fn find_name(s: Seq<(Seq<char>, u32)>, key: Seq<char>) -> int
    decreases s.len(),
{
    if s.len() == 0 {
        0
    } else if s[0].0 == key {
        0
    } else {
        1 + find_name(s.drop_first(), key)
    }
}

/// The count recorded for `key` (0 when it has none).
pub open spec fn count_of(s: Seq<(Seq<char>, u32)>, key: Seq<char>) -> u32 {
    let i = find_name(s, key);
    if i < s.len() {
        s[i].1
    } else {
        0
    }
}

/// No name occurs twice.
pub open spec fn names_unique(s: Seq<(Seq<char>, u32)>) -> bool {
    forall|i: int, j: int| 0 <= i < s.len() && 0 <= j < s.len() && i != j ==> s[i].0 != s[j].0
}

/// `s` with `value` added at the end and the oldest entries dropped so
/// that at most `limit` remain.
pub open spec fn push_recent(s: Seq<String>, value: String, limit: nat) -> Seq<String> {
    let t = s.push(value);
    if t.len() > limit {
        t.skip(t.len() - limit)
    } else {
        t
    }
}

/// `s` with the count of `key` raised by one (saturating); a new name is
/// added at the end with count 1.
pub open spec fn bumped(s: Seq<(Seq<char>, u32)>, key: Seq<char>) -> Seq<(Seq<char>, u32)> {
    let i = find_name(s, key);
    if i < s.len() {
        s.update(i, (key, sat_add_u32(s[i].1, 1)))
    } else {
        s.push((key, 1u32))
    }
}

/// The recent list never grows past its limit and ends with the newest
/// entry.
pub proof fn lemma_push_recent(s: Seq<String>, value: String, limit: nat)
    ensures
        push_recent(s, value, limit).len() == (if s.len() + 1 > limit {
            limit as int
        } else {
            s.len() + 1int
        }),
        limit > 0 ==> push_recent(s, value, limit).last() == value,
{
}

/// `find_name` is the first match.
pub proof fn lemma_find_name(s: Seq<(Seq<char>, u32)>, key: Seq<char>)
    ensures
        0 <= find_name(s, key) <= s.len(),
        find_name(s, key) < s.len() ==> s[find_name(s, key)].0 == key,
        forall|j: int| 0 <= j < find_name(s, key) ==> s[j].0 != key,
    decreases s.len(),
{
    if s.len() > 0 && s[0].0 != key {
        lemma_find_name(s.drop_first(), key);
        assert forall|j: int| 0 <= j < find_name(s, key) implies s[j].0 != key by {
            if j > 0 {
                assert(s[j] == s.drop_first()[j - 1]);
            }
        }
    }
}

/// The first index named `key` is the one `lemma_find_name` characterises.
proof fn lemma_find_name_unique(s: Seq<(Seq<char>, u32)>, key: Seq<char>, i: int)
    requires
        0 <= i <= s.len(),
        i < s.len() ==> s[i].0 == key,
        forall|j: int| 0 <= j < i ==> s[j].0 != key,
    ensures
        find_name(s, key) == i,
{
    lemma_find_name(s, key);
    let f = find_name(s, key);
    if f < i {
        assert(s[f].0 == key);
    } else if i < f {
        assert(s[i].0 != key);
    }
}

/// Bumping `key` raises its count by one, leaves every other count alone
/// and keeps names unique.
pub proof fn lemma_bumped_counts(s: Seq<(Seq<char>, u32)>, key: Seq<char>)
    ensures
        count_of(bumped(s, key), key) == sat_add_u32(count_of(s, key), 1),
        forall|k: Seq<char>| k != key ==> #[trigger] count_of(bumped(s, key), k) == count_of(s, k),
        names_unique(s) ==> names_unique(bumped(s, key)),
{
    lemma_find_name(s, key);
    let i = find_name(s, key);
    let t = bumped(s, key);
    assert forall|j: int| 0 <= j < t.len() implies #[trigger] t[j].0 == (if j == i {
        key
    } else {
        s[j].0
    }) by {}
    lemma_find_name_unique(t, key, i);
    assert forall|k: Seq<char>| k != key implies #[trigger] count_of(bumped(s, key), k) == count_of(s, k) by {
        lemma_find_name(s, k);
        let fk = find_name(s, k);
        if fk < s.len() {
            lemma_find_name_unique(t, k, fk);
        } else {
            lemma_find_name_unique(t, k, t.len() as int);
        }
    }
}

/// `chars_le` is a total order.
pub proof fn lemma_chars_le_total(s: Seq<char>, t: Seq<char>, u: Seq<char>)
    ensures
        chars_le(s, s),
        chars_le(s, t) || chars_le(t, s),
        chars_le(s, t) && chars_le(t, s) ==> s == t,
        chars_le(s, t) && chars_le(t, u) ==> chars_le(s, u),
    decreases s.len(),
{
    if s.len() > 0 {
        lemma_chars_le_total(s.drop_first(), s.drop_first(), s.drop_first());
        if t.len() > 0 {
            if s[0] != t[0] {
                vstd::utf8::char_u32_cast(s[0], s[0] as u32);
                vstd::utf8::char_u32_cast(t[0], t[0] as u32);
            }
            if u.len() > 0 {
                lemma_chars_le_total(s.drop_first(), t.drop_first(), u.drop_first());
            } else {
                lemma_chars_le_total(s.drop_first(), t.drop_first(), t.drop_first());
            }
            if chars_le(s, t) && chars_le(t, s) {
                assert(s[0] == t[0]);
                assert(s.drop_first() == t.drop_first());
                assert(s =~= seq![s[0]] + s.drop_first());
                assert(t =~= seq![t[0]] + t.drop_first());
            }
        }
    } else if t.len() == 0 {
        assert(s =~= t);
    }
}

/// `count_order` is a total order.
pub proof fn lemma_count_order_total()
    ensures
        total_ordering(count_order_rel()),
{
    let r = count_order_rel();
    assert forall|x: (Seq<char>, u32)| #[trigger] r(x, x) by {
        lemma_chars_le_total(x.0, x.0, x.0);
    }
    assert forall|x: (Seq<char>, u32), y: (Seq<char>, u32)| #[trigger] r(x, y) && #[trigger] r(y, x) implies x
        == y by {
        lemma_chars_le_total(x.0, y.0, y.0);
    }
    assert forall|x: (Seq<char>, u32), y: (Seq<char>, u32), z: (Seq<char>, u32)|
        #[trigger] r(x, y) && #[trigger] r(y, z) implies r(x, z) by {
        lemma_chars_le_total(x.0, y.0, z.0);
    }
    assert forall|x: (Seq<char>, u32), y: (Seq<char>, u32)| #[trigger] r(x, y) || #[trigger] r(y, x) by {
        lemma_chars_le_total(x.0, y.0, y.0);
    }
}

/// Whether `a` is at or before `b` by code point.
fn name_le(a: &str, b: &str) -> (r: bool)
    ensures
        r == chars_le(a@, b@),
{
    let x = chars_of(a);
    let y = chars_of(b);
    let mut i: usize = 0;
    assert(a@.skip(0) =~= a@);
    assert(b@.skip(0) =~= b@);
    while i < x.len() && i < y.len() && x[i] == y[i]
        invariant
            i <= x@.len(),
            i <= y@.len(),
            x@ == a@,
            y@ == b@,
            chars_le(a@, b@) == chars_le(a@.skip(i as int), b@.skip(i as int)),
        decreases x@.len() - i,
    {
        assert(a@.skip(i as int).drop_first() =~= a@.skip(i + 1));
        assert(b@.skip(i as int).drop_first() =~= b@.skip(i + 1));
        i = i + 1;
    }
    if i == x.len() {
        true
    } else if i == y.len() {
        false
    } else {
        (x[i] as u32) < (y[i] as u32)
    }
}

/// A copy of `e`.
fn copy_entry(e: &RuntimeCountEntry) -> (c: RuntimeCountEntry)
    ensures
        c == *e,
{
    RuntimeCountEntry { name: e.name.clone(), count: e.count }
}

impl MemoryArm32Backend {
    /// Appends `value` to `list`, dropping the oldest entries beyond `limit`.
    pub fn push_recent_entry(list: &mut Vec<String>, value: String, limit: usize)
        ensures
            final(list)@ == push_recent(old(list)@, value, limit as nat),
    {
        list.push(value);
        let ghost t = list@;
        assert(t.skip(0) =~= t);
        while list.len() > limit
            invariant
                t == old(list)@.push(value),
                list@.len() <= t.len(),
                list@.len() == t.len() || list@.len() >= limit,
                list@ == t.skip(t.len() - list@.len()),
            decreases list@.len(),
        {
            list.remove(0);
            assert(list@ =~= t.skip(t.len() - list@.len()));
        }
    }

    /// Raises the count of `key` by one (saturating), adding it with count
    /// 1 when it is new.
    pub fn bump_count(map: &mut Vec<RuntimeCountEntry>, key: &str)
        ensures
            entries_view(final(map)@) == bumped(entries_view(old(map)@), key@),
    {
        let ghost v0 = entries_view(map@);
        let mut i: usize = 0;
        while i < map.len()
            invariant
                i <= map@.len(),
                map@ == old(map)@,
                v0 == entries_view(map@),
                forall|j: int| 0 <= j < i ==> v0[j].0 != key@,
            decreases map@.len() - i,
        {
            assert(v0[i as int] == entry_view(map@[i as int]));
            if str_eq(map[i].name.as_str(), key) {
                proof {
                    lemma_find_name_unique(v0, key@, i as int);
                }
                let count = map[i].count.saturating_add(1);
                let name = map[i].name.clone();
                map.set(i, RuntimeCountEntry { name, count });
                assert(entries_view(map@) =~= bumped(v0, key@));
                return;
            }
            i = i + 1;
        }
        proof {
            lemma_find_name_unique(v0, key@, v0.len() as int);
        }
        map.push(RuntimeCountEntry { name: String::from_str(key), count: 1 });
        assert(entries_view(map@) =~= bumped(v0, key@));
    }

    /// The entries of `map`, busiest first (equal counts by name), at most
    /// `limit` of them.
    pub fn top_count_entries(map: &Vec<RuntimeCountEntry>, limit: usize) -> (items: Vec<RuntimeCountEntry>)
        ensures
            entries_view(items@) == entries_view(map@).sort_by(count_order_rel()).take(
                if limit < map@.len() {
                    limit as int
                } else {
                    map@.len() as int
                },
            ),
    {
        let ghost r = count_order_rel();
        proof {
            lemma_count_order_total();
        }
        let mut sorted: Vec<RuntimeCountEntry> = Vec::new();
        let mut i: usize = 0;
        proof {
            broadcast use vstd::seq_lib::group_to_multiset_ensures;

            assert(entries_view(sorted@) =~= Seq::<(Seq<char>, u32)>::empty());
            assert(entries_view(map@).subrange(0, 0) =~= Seq::<(Seq<char>, u32)>::empty());
        }
        while i < map.len()
            invariant
                i <= map@.len(),
                total_ordering(r),
                r == count_order_rel(),
                sorted_by(entries_view(sorted@), r),
                entries_view(sorted@).to_multiset() == entries_view(map@).subrange(0, i as int).to_multiset(),
            decreases map@.len() - i,
        {
            let e = copy_entry(&map[i]);
            let ghost ev = entry_view(e);
            let ghost sv = entries_view(sorted@);
            let mut p: usize = 0;
            while p < sorted.len() && (sorted[p].count > e.count || (sorted[p].count == e.count && name_le(
                sorted[p].name.as_str(),
                e.name.as_str(),
            )))
                invariant
                    p <= sorted@.len(),
                    sv == entries_view(sorted@),
                    forall|j: int| 0 <= j < p ==> #[trigger] r(sv[j], ev),
                decreases sorted@.len() - p,
            {
                p = p + 1;
            }
            proof {
                if p < sv.len() {
                    assert(!r(sv[p as int], ev));
                    assert(r(ev, sv[p as int]));
                }
            }
            sorted.insert(p, e);
            proof {
                broadcast use vstd::seq_lib::group_to_multiset_ensures;

                let nv = entries_view(sorted@);
                assert(nv =~= sv.insert(p as int, ev));
                assert forall|a: int, b: int| 0 <= a < b < nv.len() implies #[trigger] r(nv[a], nv[b]) by {
                    if b < p {
                        assert(nv[a] == sv[a] && nv[b] == sv[b]);
                    } else if b == p {
                        assert(nv[a] == sv[a]);
                    } else if a < p {
                        assert(nv[a] == sv[a] && nv[b] == sv[b - 1]);
                        assert(r(sv[a], ev));
                        assert(r(ev, sv[p as int]));
                        if b - 1 > p {
                            assert(r(sv[p as int], sv[b - 1]));
                        }
                    } else if a == p {
                        assert(nv[b] == sv[b - 1]);
                        if b - 1 > p {
                            assert(r(sv[p as int], sv[b - 1]));
                        }
                    } else {
                        assert(nv[a] == sv[a - 1] && nv[b] == sv[b - 1]);
                    }
                }
                let mv = entries_view(map@);
                assert(mv.subrange(0, i + 1) =~= mv.subrange(0, i as int).push(ev));
            }
            i = i + 1;
        }
        proof {
            broadcast use vstd::seq_lib::group_to_multiset_ensures;

            let mv = entries_view(map@);
            assert(mv.subrange(0, map@.len() as int) =~= mv);
            assert(entries_view(sorted@).len() == sorted@.len());
            vstd::seq_lib::to_multiset_len(entries_view(sorted@));
            vstd::seq_lib::to_multiset_len(mv);
            assert(entries_view(sorted@).len() == mv.len());
            mv.lemma_sort_by_ensures(r);
            vstd::seq_lib::lemma_sorted_unique(entries_view(sorted@), mv.sort_by(r), r);
        }
        let ghost full = sorted@;
        sorted.truncate(limit);
        proof {
            let n = if limit < map@.len() {
                limit as int
            } else {
                map@.len() as int
            };
            assert(sorted@ =~= full.take(n));
            assert(entries_view(sorted@) =~= entries_view(full).take(n));
        }
        sorted
    }

    /// Counts one GL call named `label` and remembers `entry` among the
    /// recent calls; returns the new count of `label`.
    pub fn record_gl_call(&mut self, label: &str, entry: String) -> (count: u32)
        ensures
            count == count_of(entries_view(final(self).runtime.gl_call_counts@), label@),
            entries_view(final(self).runtime.gl_call_counts@) == bumped(
                entries_view(old(self).runtime.gl_call_counts@),
                label@,
            ),
            final(self).runtime.recent_gl_calls@ == push_recent(
                old(self).runtime.recent_gl_calls@,
                entry,
                RECENT_ENTRY_LIMIT as nat,
            ),
            *final(self) == (MemoryArm32Backend {
                runtime: super::BackendRuntimeState {
                    gl_call_counts: final(self).runtime.gl_call_counts,
                    recent_gl_calls: final(self).runtime.recent_gl_calls,
                    ..old(self).runtime
                },
                ..*old(self)
            }),
    {
        Self::bump_count(&mut self.runtime.gl_call_counts, label);
        let count = Self::count_for(&self.runtime.gl_call_counts, label);
        Self::push_recent_entry(&mut self.runtime.recent_gl_calls, entry, RECENT_ENTRY_LIMIT);
        count
    }

    /// Counts one message send of `selector` and remembers `entry` among
    /// the recent selectors.
    pub fn record_objc_selector(&mut self, selector: &str, entry: String)
        ensures
            final(self).runtime.objc.objc_msgsend_calls == sat_add_u32(old(self).runtime.objc.objc_msgsend_calls, 1),
            entries_view(final(self).runtime.objc.objc_selector_counts@) == bumped(
                entries_view(old(self).runtime.objc.objc_selector_counts@),
                selector@,
            ),
            final(self).runtime.objc.recent_objc_selectors@ == push_recent(
                old(self).runtime.objc.recent_objc_selectors@,
                entry,
                RECENT_ENTRY_LIMIT as nat,
            ),
            *final(self) == (MemoryArm32Backend {
                runtime: super::BackendRuntimeState {
                    objc: super::ObjcState {
                        objc_msgsend_calls: final(self).runtime.objc.objc_msgsend_calls,
                        objc_selector_counts: final(self).runtime.objc.objc_selector_counts,
                        recent_objc_selectors: final(self).runtime.objc.recent_objc_selectors,
                        ..old(self).runtime.objc
                    },
                    ..old(self).runtime
                },
                ..*old(self)
            }),
    {
        self.runtime.objc.objc_msgsend_calls = self.runtime.objc.objc_msgsend_calls.saturating_add(1);
        Self::bump_count(&mut self.runtime.objc.objc_selector_counts, selector);
        Self::push_recent_entry(&mut self.runtime.objc.recent_objc_selectors, entry, RECENT_ENTRY_LIMIT);
    }

    /// The count recorded for `key` (0 when it has none).
    pub fn count_for(map: &Vec<RuntimeCountEntry>, key: &str) -> (c: u32)
        ensures
            c == count_of(entries_view(map@), key@),
    {
        let ghost v = entries_view(map@);
        let mut i: usize = 0;
        while i < map.len()
            invariant
                i <= map@.len(),
                v == entries_view(map@),
                forall|j: int| 0 <= j < i ==> v[j].0 != key@,
            decreases map@.len() - i,
        {
            assert(v[i as int] == entry_view(map@[i as int]));
            if str_eq(map[i].name.as_str(), key) {
                proof {
                    lemma_find_name_unique(v, key@, i as int);
                }
                return map[i].count;
            }
            i = i + 1;
        }
        proof {
            lemma_find_name_unique(v, key@, v.len() as int);
        }
        0
    }
}

} // verus!
