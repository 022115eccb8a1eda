//! The sample store: a per-key FIFO bounded by `history`, under a global
//! cap on the number of distinct stored keys.
//!
//! The store is owned by one cache task and never shared. Its behaviour is
//! a function `insert_model` on the store's view; the laws about FIFO
//! bounds and the key cap are stated and proved over that function.

use vstd::prelude::*;

use crate::keyexpr::{clone_bytes, valid_key, KeyExpr};

verus! {

/// What a publication did to its key.
#[derive(Clone, Copy, Debug, PartialEq, Eq, Structural)]
pub enum SampleKind {
    Put,
    Delete,
}

/// A published value: a concrete key, a payload, a kind, and an optional
/// monotonic ordinal.
pub struct Sample {
    pub key: KeyExpr,
    pub payload: Vec<u8>,
    pub kind: SampleKind,
    pub timestamp: Option<u64>,
}

/// The mathematical value of a sample.
#[verifier::ext_equal]
pub ghost struct SampleV {
    pub key: Seq<Seq<u8>>,
    pub payload: Seq<u8>,
    pub kind: SampleKind,
    pub timestamp: Option<u64>,
}

impl View for Sample {
    type V = SampleV;

    open spec fn view(&self) -> SampleV {
        SampleV { key: self.key@, payload: self.payload@, kind: self.kind, timestamp: self.timestamp }
    }
}

impl Clone for Sample {
    /// Cloning keeps the value: the cache replies with clones.
    fn clone(&self) -> (r: Self)
        ensures
            r@ == self@,
    {
        Sample {
            key: self.key.clone(),
            payload: clone_bytes(&self.payload),
            kind: self.kind,
            timestamp: self.timestamp,
        }
    }
}

/// The mathematical value of one store entry.
#[verifier::ext_equal]
pub ghost struct EntryV {
    pub key: Seq<Seq<u8>>,
    pub samples: Seq<SampleV>,
}

/// One store entry: a stored key and its FIFO of samples.
pub struct Entry {
    pub key: KeyExpr,
    pub samples: Vec<Sample>,
}

impl View for Entry {
    type V = EntryV;

    open spec fn view(&self) -> EntryV {
        EntryV { key: self.key@, samples: self.samples@.map_values(|s: Sample| s@) }
    }
}

/// The view of a vector of entries.
pub open spec fn entries_view(v: Seq<Entry>) -> Seq<EntryV> {
    v.map_values(|e: Entry| e@)
}

/// Whether one more distinct key may be added under the cap.
pub open spec fn limit_ok(n: nat, limit: Option<usize>) -> bool {
    match limit {
        Option::None => true,
        Option::Some(l) => n < l,
    }
}

/// Whether some entry holds key `k`.
pub open spec fn has_key(s: Seq<EntryV>, k: Seq<Seq<u8>>) -> bool {
    exists|i: int| 0 <= i < s.len() && (#[trigger] s[i]).key == k
}

/// The index of the first entry holding key `k`.
pub open spec fn idx_of(s: Seq<EntryV>, k: Seq<Seq<u8>>) -> int
    decreases s.len(),
{
    if s.len() == 0 {
        0
    } else if s[0].key == k {
        0
    } else {
        1 + idx_of(s.skip(1), k)
    }
}

/// The samples stored under key `k`, oldest first; empty if `k` is absent.
pub open spec fn samples_of(s: Seq<EntryV>, k: Seq<Seq<u8>>) -> Seq<SampleV> {
    if has_key(s, k) {
        s[idx_of(s, k)].samples
    } else {
        Seq::empty()
    }
}

/// One FIFO step: when the entry is full, the oldest sample leaves before
/// the new one is pushed at the tail.
pub open spec fn push_step(q: Seq<SampleV>, x: SampleV, h: nat) -> Seq<SampleV> {
    if q.len() >= h && q.len() >= 1 {
        q.skip(1).push(x)
    } else {
        q.push(x)
    }
}

/// The effect of one insertion on the store's view. A present key is
/// updated in place; a new key is appended when the cap allows it; an
/// insert for a new key over the cap leaves the store unchanged.
pub open spec fn insert_model(
    s: Seq<EntryV>,
    k: Seq<Seq<u8>>,
    x: SampleV,
    h: nat,
    limit: Option<usize>,
) -> Seq<EntryV> {
    if has_key(s, k) {
        s.update(idx_of(s, k), EntryV { key: k, samples: push_step(s[idx_of(s, k)].samples, x, h) })
    } else if limit_ok(s.len(), limit) {
        s.push(EntryV { key: k, samples: seq![x] })
    } else {
        s
    }
}

/// Whether an insertion for key `k` is accepted.
pub open spec fn insert_stored(s: Seq<EntryV>, k: Seq<Seq<u8>>, limit: Option<usize>) -> bool {
    has_key(s, k) || limit_ok(s.len(), limit)
}

/// No two entries hold the same key.
pub open spec fn distinct_keys(s: Seq<EntryV>) -> bool {
    forall|i: int, j: int| 0 <= i < j < s.len() ==> (#[trigger] s[i]).key != (#[trigger] s[j]).key
}

/// The per-key capacity: `history`, but an entry always keeps the sample
/// just pushed, so at least one.
pub open spec fn cap_of(h: nat) -> nat {
    if h >= 1 {
        h
    } else {
        1
    }
}

/// Well-formedness of a store view: distinct canonical keys, non-empty
/// entries within the per-key capacity, and the key cap respected.
pub open spec fn wf_entries(s: Seq<EntryV>, h: nat, limit: Option<usize>) -> bool {
    &&& distinct_keys(s)
    &&& forall|i: int| 0 <= i < s.len() ==> valid_key((#[trigger] s[i]).key)
    &&& forall|i: int|
        0 <= i < s.len() ==> 1 <= (#[trigger] s[i]).samples.len() <= cap_of(h)
    &&& match limit {
        Option::None => true,
        Option::Some(l) => s.len() <= l,
    }
}

/// `idx_of` finds the first entry with the key.
pub proof fn lemma_idx_of_props(s: Seq<EntryV>, k: Seq<Seq<u8>>)
    requires
        has_key(s, k),
    ensures
        0 <= idx_of(s, k) < s.len(),
        s[idx_of(s, k)].key == k,
        forall|j: int| 0 <= j < idx_of(s, k) ==> (#[trigger] s[j]).key != k,
    decreases s.len(),
{
    if s[0].key == k {
    } else {
        let i = choose|i: int| 0 <= i < s.len() && s[i].key == k;
        assert(s.skip(1)[i - 1].key == k);
        lemma_idx_of_props(s.skip(1), k);
        assert forall|j: int| 0 <= j < idx_of(s, k) implies (#[trigger] s[j]).key != k by {
            if j > 0 {
                assert(s.skip(1)[j - 1].key != k);
                assert(s[j] == s.skip(1)[j - 1]);
            }
        }
    }
}

/// The first match determines `idx_of`.
pub proof fn lemma_idx_of_at(s: Seq<EntryV>, k: Seq<Seq<u8>>, i: int)
    requires
        0 <= i < s.len(),
        s[i].key == k,
        forall|j: int| 0 <= j < i ==> (#[trigger] s[j]).key != k,
    ensures
        has_key(s, k),
        idx_of(s, k) == i,
{
    assert(has_key(s, k));
    lemma_idx_of_props(s, k);
    let d = idx_of(s, k);
    if d < i {
        assert(s[d].key != k);
    }
    if d > i {
        assert(s[i].key != k);
    }
}

/// A store of bounded per-key FIFOs with a cap on distinct keys.
pub struct CacheStore {
    pub entries: Vec<Entry>,
    pub history: usize,
    pub resources_limit: Option<usize>,
}

impl View for CacheStore {
    type V = Seq<EntryV>;

    open spec fn view(&self) -> Seq<EntryV> {
        entries_view(self.entries@)
    }
}

pub(crate) fn find_entry(entries: &Vec<Entry>, key: &KeyExpr) -> (r: Option<usize>)
    ensures
        match r {
            Option::Some(i) => i < entries@.len() && entries_view(entries@)[i as int].key == key@
                && forall|j: int|
                0 <= j < i ==> (#[trigger] entries_view(entries@)[j]).key != key@,
            Option::None => forall|j: int|
                0 <= j < entries@.len() ==> (#[trigger] entries_view(entries@)[j]).key != key@,
        },
{
    let n = entries.len();
    let mut i: usize = 0;
    while i < n
        invariant
            0 <= i <= entries@.len(),
            n == entries@.len(),
            forall|j: int| 0 <= j < i ==> (#[trigger] entries_view(entries@)[j]).key != key@,
        decreases n - i,
    {
        if entries[i].key.key_eq(key) {
            assert(entries_view(entries@)[i as int].key == key@);
            return Some(i);
        }
        assert(entries_view(entries@)[i as int].key != key@);
        i += 1;
    }
    return None;
}

pub(crate) fn clone_samples_into(dst: &mut Vec<Sample>, src: &Vec<Sample>)
    ensures
        final(dst)@.map_values(|s: Sample| s@) == old(dst)@.map_values(|s: Sample| s@)
            + src@.map_values(|s: Sample| s@),
{
    let ghost base = dst@.map_values(|s: Sample| s@);
    let ghost add = src@.map_values(|s: Sample| s@);
    let n = src.len();
    let mut i: usize = 0;
    while i < n
        invariant
            0 <= i <= src@.len(),
            n == src@.len(),
            add == src@.map_values(|s: Sample| s@),
            dst@.map_values(|s: Sample| s@) == base + add.take(i as int),
        decreases n - i,
    {
        let ghost before = dst@;
        dst.push(src[i].clone());
        assert(dst@.map_values(|s: Sample| s@) =~= before.map_values(|s: Sample| s@).push(
            src@[i as int]@,
        ));
        assert(dst@.map_values(|s: Sample| s@) =~= base + add.take(i + 1 as int));
        i += 1;
    }
    assert(dst@.map_values(|s: Sample| s@) =~= base + add);
}

impl CacheStore {
    /// Well-formedness; constructors establish it, `insert` preserves it.
    pub open spec fn wf(&self) -> bool {
        wf_entries(self@, self.history as nat, self.resources_limit)
    }

    /// An empty store with the given per-key history bound and optional
    /// cap on distinct keys.
    pub fn new(history: usize, resources_limit: Option<usize>) -> (s: CacheStore)
        ensures
            s@ == Seq::<EntryV>::empty(),
            s.wf(),
            s.history == history,
            s.resources_limit == resources_limit,
    {
        let s = CacheStore { entries: Vec::new(), history, resources_limit };
        assert(s@ =~= Seq::<EntryV>::empty());
        return s;
    }

    /// The number of distinct stored keys.
    pub fn key_count(&self) -> (n: usize)
        ensures
            n == self@.len(),
    {
        self.entries.len()
    }

    /// The samples stored under exactly `key`, oldest first, as clones;
    /// empty when the key is absent.
    pub fn lookup_exact(&self, key: &KeyExpr) -> (r: Vec<Sample>)
        ensures
            r@.map_values(|s: Sample| s@) == samples_of(self@, key@),
    {
        let mut out: Vec<Sample> = Vec::new();
        assert(out@.map_values(|s: Sample| s@) =~= Seq::<SampleV>::empty());
        match find_entry(&self.entries, key) {
            Option::Some(i) => {
                proof {
                    lemma_idx_of_at(self@, key@, i as int);
                }
                clone_samples_into(&mut out, &self.entries[i].samples);
                assert(out@.map_values(|s: Sample| s@) =~= self@[i as int].samples);
            },
            Option::None => {
                assert(!has_key(self@, key@));
            },
        }
        return out;
    }

    /// Insert one sample under its stored key. Returns whether the sample
    /// was kept: an insert for a new key while the store holds
    /// `resources_limit` distinct keys is refused and changes nothing;
    /// every other insert is kept, evicting the oldest sample of a full
    /// entry.
    pub fn insert(&mut self, key: KeyExpr, sample: Sample) -> (stored: bool)
        requires
            old(self).wf(),
            valid_key(key@),
        ensures
            final(self)@ == insert_model(
                old(self)@,
                key@,
                sample@,
                old(self).history as nat,
                old(self).resources_limit,
            ),
            stored == insert_stored(old(self)@, key@, old(self).resources_limit),
            final(self).wf(),
            final(self).history == old(self).history,
            final(self).resources_limit == old(self).resources_limit,
    {
        let ghost s0 = self@;
        let ghost h = self.history as nat;
        let ghost limit = self.resources_limit;
        proof {
            lemma_insert_preserves_wf(s0, key@, sample@, h, limit);
        }
        match find_entry(&self.entries, &key) {
            Option::Some(i) => {
                proof {
                    lemma_idx_of_at(s0, key@, i as int);
                }
                let mut e = self.entries.remove(i);
                assert(e@ == s0[i as int]);
                let ghost q0 = e@.samples;
                let ghost qv0 = e.samples@;
                if e.samples.len() >= self.history && e.samples.len() >= 1 {
                    let _evicted = e.samples.remove(0);
                    assert(e.samples@ =~= qv0.skip(1));
                }
                e.samples.push(sample);
                assert(e@.samples =~~= push_step(q0, sample@, h));
                assert(e@ =~~= EntryV {
                    key: key@,
                    samples: push_step(s0[i as int].samples, sample@, h),
                });
                self.entries.insert(i, e);
                assert(self@ =~= s0.update(i as int, e@));
                assert(self@ =~~= insert_model(s0, key@, sample@, h, limit));
                return true;
            },
            Option::None => {
                assert(!has_key(s0, key@));
                let can_add = match self.resources_limit {
                    Option::None => true,
                    Option::Some(l) => self.entries.len() < l,
                };
                if can_add {
                    let mut samples: Vec<Sample> = Vec::new();
                    let ghost xv = sample@;
                    samples.push(sample);
                    let e = Entry { key, samples };
                    assert(e@.samples =~~= seq![xv]);
                    self.entries.push(e);
                    assert(self@ =~= s0.push(e@));
                    assert(self@ =~~= insert_model(s0, key@, xv, h, limit));
                    return true;
                } else {
                    assert(self@ =~= insert_model(s0, key@, sample@, h, limit));
                    return false;
                }
            },
        }
    }
}

/// Inserting preserves well-formedness; in particular the number of
/// distinct keys never passes the cap.
pub proof fn lemma_insert_preserves_wf(
    s: Seq<EntryV>,
    k: Seq<Seq<u8>>,
    x: SampleV,
    h: nat,
    limit: Option<usize>,
)
    requires
        wf_entries(s, h, limit),
        valid_key(k),
    ensures
        wf_entries(insert_model(s, k, x, h, limit), h, limit),
{
    let t = insert_model(s, k, x, h, limit);
    if has_key(s, k) {
        lemma_idx_of_props(s, k);
        let i = idx_of(s, k);
        assert forall|j: int| 0 <= j < t.len() implies 1 <= (#[trigger] t[j]).samples.len()
            <= cap_of(h) by {
            if j == i {
                assert(1 <= s[i].samples.len() <= cap_of(h));
            } else {
                assert(t[j] == s[j]);
            }
        }
        assert forall|j: int| 0 <= j < t.len() implies valid_key((#[trigger] t[j]).key) by {
            if j != i {
                assert(t[j] == s[j]);
            }
        }
        assert(distinct_keys(t)) by {
            assert forall|a: int, b: int| 0 <= a < b < t.len() implies (#[trigger] t[a]).key
                != (#[trigger] t[b]).key by {
                assert(t[a].key == s[a].key);
                assert(t[b].key == s[b].key);
            }
        }
    } else if limit_ok(s.len(), limit) {
        assert forall|j: int| 0 <= j < t.len() implies 1 <= (#[trigger] t[j]).samples.len()
            <= cap_of(h) by {
            if j < s.len() {
                assert(t[j] == s[j]);
            } else {
                assert(t[j].samples == seq![x]);
            }
        }
        assert(distinct_keys(t)) by {
            assert forall|a: int, b: int| 0 <= a < b < t.len() implies (#[trigger] t[a]).key
                != (#[trigger] t[b]).key by {
                if b == s.len() {
                    assert(t[a].key == s[a].key);
                    assert(!has_key(s, t[b].key));
                }
            }
        }
    } else {
    }
}

/// Two entry sequences with the same keys agree on key lookup.
proof fn lemma_idx_same_keys(s: Seq<EntryV>, t: Seq<EntryV>, k: Seq<Seq<u8>>)
    requires
        s.len() == t.len(),
        forall|j: int| 0 <= j < s.len() ==> (#[trigger] s[j]).key == t[j].key,
    ensures
        has_key(t, k) == has_key(s, k),
        idx_of(t, k) == idx_of(s, k),
    decreases s.len(),
{
    if has_key(s, k) {
        let i = choose|i: int| 0 <= i < s.len() && s[i].key == k;
        assert(t[i].key == k);
        assert(has_key(t, k));
    }
    if has_key(t, k) {
        let i = choose|i: int| 0 <= i < t.len() && t[i].key == k;
        assert(s[i].key == k);
        assert(has_key(s, k));
    }
    if s.len() > 0 && s[0].key != k {
        assert forall|j: int| 0 <= j < s.skip(1).len() implies (#[trigger] s.skip(1)[j]).key
            == t.skip(1)[j].key by {
            assert(s.skip(1)[j] == s[j + 1]);
            assert(t.skip(1)[j] == t[j + 1]);
        }
        lemma_idx_same_keys(s.skip(1), t.skip(1), k);
    }
}

/// The effect of one insertion on the inserted key: accepted unless the
/// key is new and the cap is reached; the entry takes one FIFO step.
pub proof fn lemma_insert_same(
    s: Seq<EntryV>,
    k: Seq<Seq<u8>>,
    x: SampleV,
    h: nat,
    limit: Option<usize>,
)
    requires
        distinct_keys(s),
    ensures
        insert_stored(s, k, limit) ==> has_key(insert_model(s, k, x, h, limit), k)
            && samples_of(insert_model(s, k, x, h, limit), k) == push_step(
            samples_of(s, k),
            x,
            h,
        ),
        !insert_stored(s, k, limit) ==> insert_model(s, k, x, h, limit) == s,
        distinct_keys(insert_model(s, k, x, h, limit)),
{
    let t = insert_model(s, k, x, h, limit);
    if has_key(s, k) {
        lemma_idx_of_props(s, k);
        let i = idx_of(s, k);
        assert forall|j: int| 0 <= j < s.len() implies (#[trigger] s[j]).key == t[j].key by {}
        lemma_idx_same_keys(s, t, k);
        assert(samples_of(t, k) == t[i].samples);
        assert(distinct_keys(t)) by {
            assert forall|a: int, b: int| 0 <= a < b < t.len() implies (#[trigger] t[a]).key
                != (#[trigger] t[b]).key by {
                assert(t[a].key == s[a].key);
                assert(t[b].key == s[b].key);
            }
        }
    } else if limit_ok(s.len(), limit) {
        assert forall|j: int| 0 <= j < s.len() implies (#[trigger] t[j]).key != k by {
            assert(t[j] == s[j]);
        }
        assert(t[s.len() as int].key == k);
        lemma_idx_of_at(t, k, s.len() as int);
        assert(samples_of(t, k) =~= seq![x]);
        assert(samples_of(s, k) =~= Seq::<SampleV>::empty());
        assert(push_step(samples_of(s, k), x, h) =~= seq![x]);
        assert(distinct_keys(t)) by {
            assert forall|a: int, b: int| 0 <= a < b < t.len() implies (#[trigger] t[a]).key
                != (#[trigger] t[b]).key by {
                if b == s.len() {
                    assert(t[a].key == s[a].key);
                } else {
                    assert(t[a].key == s[a].key);
                    assert(t[b].key == s[b].key);
                }
            }
        }
    } else {
    }
}

/// One insertion leaves every other key's entry untouched.
pub proof fn lemma_insert_other(
    s: Seq<EntryV>,
    k: Seq<Seq<u8>>,
    x: SampleV,
    h: nat,
    limit: Option<usize>,
    k2: Seq<Seq<u8>>,
)
    requires
        distinct_keys(s),
        k2 != k,
    ensures
        samples_of(insert_model(s, k, x, h, limit), k2) == samples_of(s, k2),
        has_key(insert_model(s, k, x, h, limit), k2) == has_key(s, k2),
{
    let t = insert_model(s, k, x, h, limit);
    if has_key(s, k) {
        lemma_idx_of_props(s, k);
        let i = idx_of(s, k);
        assert forall|j: int| 0 <= j < s.len() implies (#[trigger] s[j]).key == t[j].key by {}
        lemma_idx_same_keys(s, t, k2);
        if has_key(s, k2) {
            lemma_idx_of_props(s, k2);
            let i2 = idx_of(s, k2);
            assert(s[i2].key == k2);
            assert(i2 != i);
            assert(t[i2] == s[i2]);
        }
    } else if limit_ok(s.len(), limit) {
        if has_key(s, k2) {
            lemma_idx_of_props(s, k2);
            let i2 = idx_of(s, k2);
            assert(t[i2].key == k2);
            assert forall|j: int| 0 <= j < i2 implies (#[trigger] t[j]).key != k2 by {
                assert(t[j] == s[j]);
            }
            lemma_idx_of_at(t, k2, i2);
            assert(t[i2] == s[i2]);
        } else {
            assert forall|j: int| 0 <= j < t.len() implies (#[trigger] t[j]).key != k2 by {
                if j < s.len() {
                    assert(t[j] == s[j]);
                }
            }
            assert(!has_key(t, k2));
        }
    } else {
    }
}

/// Iterated FIFO steps on one queue.
pub open spec fn fifo_all(q: Seq<SampleV>, xs: Seq<SampleV>, h: nat) -> Seq<SampleV>
    decreases xs.len(),
{
    if xs.len() == 0 {
        q
    } else {
        fifo_all(push_step(q, xs[0], h), xs.skip(1), h)
    }
}

/// The last `h` elements of a sequence (all of it when shorter).
pub open spec fn lastn(s: Seq<SampleV>, h: nat) -> Seq<SampleV> {
    if s.len() <= h {
        s
    } else {
        s.skip(s.len() - h)
    }
}

/// Iterating FIFO steps keeps exactly the last `h` of the whole history.
proof fn lemma_fifo_all_lastn(q: Seq<SampleV>, xs: Seq<SampleV>, h: nat)
    requires
        h >= 1,
        q.len() <= h,
    ensures
        fifo_all(q, xs, h) == lastn(q + xs, h),
    decreases xs.len(),
{
    if xs.len() == 0 {
        assert(q + xs =~= q);
    } else {
        let q1 = push_step(q, xs[0], h);
        assert(q1.len() <= h);
        lemma_fifo_all_lastn(q1, xs.skip(1), h);
        let full = q + xs;
        if q.len() >= h && q.len() >= 1 {
            assert(q1 + xs.skip(1) =~= full.skip(1));
            assert(full.len() > h);
            if full.skip(1).len() <= h {
                assert(full.skip(1) =~= full.skip(full.len() - h));
            } else {
                assert(full.skip(1).skip(full.len() - 1 - h) =~= full.skip(full.len() - h));
                assert(lastn(full.skip(1), h) == lastn(full, h));
            }
            assert(fifo_all(q, xs, h) == lastn(full, h));
        } else {
            assert(q1 + xs.skip(1) =~= full);
        }
    }
}

/// Iterated insertions of one key's samples.
pub open spec fn insert_all(
    s: Seq<EntryV>,
    k: Seq<Seq<u8>>,
    xs: Seq<SampleV>,
    h: nat,
    limit: Option<usize>,
) -> Seq<EntryV>
    decreases xs.len(),
{
    if xs.len() == 0 {
        s
    } else {
        insert_all(insert_model(s, k, xs[0], h, limit), k, xs.skip(1), h, limit)
    }
}

/// Inserting a run of samples for one admissible key takes the entry
/// through the iterated FIFO steps.
proof fn lemma_insert_all_samples(
    s: Seq<EntryV>,
    k: Seq<Seq<u8>>,
    xs: Seq<SampleV>,
    h: nat,
    limit: Option<usize>,
)
    requires
        distinct_keys(s),
        has_key(s, k) || limit_ok(s.len(), limit),
    ensures
        samples_of(insert_all(s, k, xs, h, limit), k) == fifo_all(samples_of(s, k), xs, h),
        distinct_keys(insert_all(s, k, xs, h, limit)),
    decreases xs.len(),
{
    if xs.len() == 0 {
    } else {
        lemma_insert_same(s, k, xs[0], h, limit);
        let t = insert_model(s, k, xs[0], h, limit);
        lemma_insert_all_samples(t, k, xs.skip(1), h, limit);
    }
}

/// Per-key FIFO bound: starting without key `k` and with room for it,
/// inserting any run `xs` of samples on `k` leaves exactly the last
/// `min(|xs|, history)` of them, in insertion order. (With a history of
/// zero an entry still keeps the sample just pushed, so the run below
/// asks for a history of at least one.)
pub proof fn law_per_key_fifo(
    s: Seq<EntryV>,
    k: Seq<Seq<u8>>,
    xs: Seq<SampleV>,
    h: nat,
    limit: Option<usize>,
)
    requires
        distinct_keys(s),
        h >= 1,
        !has_key(s, k),
        limit_ok(s.len(), limit),
    ensures
        samples_of(insert_all(s, k, xs, h, limit), k) == lastn(xs, h),
        samples_of(insert_all(s, k, xs, h, limit), k).len() == if xs.len() <= h {
            xs.len()
        } else {
            h
        },
{
    lemma_insert_all_samples(s, k, xs, h, limit);
    assert(samples_of(s, k) =~= Seq::<SampleV>::empty());
    lemma_fifo_all_lastn(samples_of(s, k), xs, h);
    assert(samples_of(s, k) + xs =~= xs);
}

/// One insertion, of any key whatever.
#[verifier::ext_equal]
pub ghost struct InsertOp {
    pub key: Seq<Seq<u8>>,
    pub sample: SampleV,
}

/// Iterated insertions of arbitrary keys.
pub open spec fn apply_ops(
    s: Seq<EntryV>,
    ops: Seq<InsertOp>,
    h: nat,
    limit: Option<usize>,
) -> Seq<EntryV>
    decreases ops.len(),
{
    if ops.len() == 0 {
        s
    } else {
        apply_ops(insert_model(s, ops[0].key, ops[0].sample, h, limit), ops.skip(1), h, limit)
    }
}

/// Global key cap: after any sequence of inserts the store stays
/// well-formed; in particular it never holds more than `l` distinct keys.
pub proof fn law_global_key_cap(s: Seq<EntryV>, ops: Seq<InsertOp>, h: nat, l: usize)
    requires
        wf_entries(s, h, Option::Some(l)),
        forall|i: int| 0 <= i < ops.len() ==> valid_key((#[trigger] ops[i]).key),
    ensures
        wf_entries(apply_ops(s, ops, h, Option::Some(l)), h, Option::Some(l)),
        apply_ops(s, ops, h, Option::Some(l)).len() <= l,
    decreases ops.len(),
{
    if ops.len() == 0 {
    } else {
        lemma_insert_preserves_wf(s, ops[0].key, ops[0].sample, h, Option::Some(l));
        let t = insert_model(s, ops[0].key, ops[0].sample, h, Option::Some(l));
        assert forall|i: int| 0 <= i < ops.skip(1).len() implies valid_key(
            (#[trigger] ops.skip(1)[i]).key,
        ) by {
            assert(ops.skip(1)[i] == ops[i + 1]);
        }
        law_global_key_cap(t, ops.skip(1), h, l);
    }
}

/// Existing keys are unaffected by the cap: an insert into an
/// already-present key always succeeds and takes its FIFO step, whether or
/// not the number of distinct keys has reached the limit.
pub proof fn law_existing_keys_unaffected(
    s: Seq<EntryV>,
    k: Seq<Seq<u8>>,
    x: SampleV,
    h: nat,
    limit: Option<usize>,
)
    requires
        distinct_keys(s),
        has_key(s, k),
    ensures
        insert_stored(s, k, limit),
        samples_of(insert_model(s, k, x, h, limit), k) == push_step(samples_of(s, k), x, h),
{
    lemma_insert_same(s, k, x, h, limit);
}

} // verus!
