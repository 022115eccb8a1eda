//! The query responder: matches a query selector against the store and
//! yields the replies, in order.
//!
//! A selector without a wildcard is answered by the one entry stored under
//! exactly that key, oldest sample first. A wildcard selector is answered
//! by every entry whose stored key intersects it; within one entry the
//! samples keep their insertion order, while the order across entries is
//! the store's own and is not part of the contract callers should lean on.

use vstd::prelude::*;

use crate::keyexpr::{concrete_key, has_wild, inter, KeyExpr};
use crate::store::{
    clone_samples_into, distinct_keys, has_key, insert_all, lastn, law_per_key_fifo, limit_ok,
    samples_of, CacheStore, EntryV, Sample, SampleV,
};

verus! {

/// The replies of a wildcard scan: the samples of every entry whose key
/// intersects the selector, concatenated in store order.
pub open spec fn scan(s: Seq<EntryV>, sel: Seq<Seq<u8>>) -> Seq<SampleV>
    decreases s.len(),
{
    if s.len() == 0 {
        Seq::empty()
    } else {
        (if inter(sel, s[0].key) {
            s[0].samples
        } else {
            Seq::empty()
        }) + scan(s.skip(1), sel)
    }
}

/// What a query returns: the exact entry for a literal selector, the
/// intersecting scan for a wildcard one.
pub open spec fn replies_model(s: Seq<EntryV>, sel: Seq<Seq<u8>>) -> Seq<SampleV> {
    if has_wild(sel) {
        scan(s, sel)
    } else {
        samples_of(s, sel)
    }
}

/// Compute the replies for one query selector against the store: each
/// reply is a clone of a stored sample, and the sequence of reply values
/// is exactly `replies_model`.
pub fn replies_for(store: &CacheStore, selector: &KeyExpr) -> (r: Vec<Sample>)
    requires
        selector.wf(),
    ensures
        r@.map_values(|s: Sample| s@) == replies_model(store@, selector@),
{
    if !selector.has_wildcard() {
        return store.lookup_exact(selector);
    }
    let mut out: Vec<Sample> = Vec::new();
    assert(out@.map_values(|s: Sample| s@) =~= Seq::<SampleV>::empty());
    let n = store.entries.len();
    let mut i: usize = 0;
    assert(store@.skip(0) =~= store@);
    while i < n
        invariant
            0 <= i <= store@.len(),
            n == store@.len(),
            selector.wf(),
            out@.map_values(|s: Sample| s@) + scan(store@.skip(i as int), selector@) == scan(
                store@,
                selector@,
            ),
        decreases n - i,
    {
        let ghost rest = store@.skip(i as int);
        assert(rest[0] == store@[i as int]);
        assert(rest.skip(1) =~= store@.skip(i + 1 as int));
        let ghost before = out@.map_values(|s: Sample| s@);
        if selector.intersects(&store.entries[i].key) {
            assert(inter(selector@, store@[i as int].key));
            clone_samples_into(&mut out, &store.entries[i].samples);
            assert(out@.map_values(|s: Sample| s@) + scan(store@.skip(i + 1 as int), selector@)
                =~= before + scan(rest, selector@));
        } else {
            assert(!inter(selector@, store@[i as int].key));
            assert(out@.map_values(|s: Sample| s@) + scan(store@.skip(i + 1 as int), selector@)
                =~= before + scan(rest, selector@));
        }
        i += 1;
    }
    assert(store@.skip(n as int) =~= Seq::<EntryV>::empty());
    assert(out@.map_values(|s: Sample| s@) =~= scan(store@, selector@));
    return out;
}

/// Exact-selector replay: a query whose selector is a concrete key is
/// answered by exactly the samples stored under that key, in insertion
/// order, and by nothing else.
pub proof fn law_exact_replay(s: Seq<EntryV>, k: Seq<Seq<u8>>)
    requires
        concrete_key(k),
    ensures
        replies_model(s, k) == samples_of(s, k),
{
}

/// No reply reordering within a key: after any run of publications on a
/// fresh key `k`, an exact query for `k` replays the retained samples in
/// exactly their insertion order. Later publications never rearrange what
/// an already-computed reply sequence holds, since each query is answered
/// from the store as it stands when the query is served.
pub proof fn law_exact_replay_in_order(
    s: Seq<EntryV>,
    k: Seq<Seq<u8>>,
    xs: Seq<SampleV>,
    h: nat,
    limit: Option<usize>,
)
    requires
        distinct_keys(s),
        concrete_key(k),
        h >= 1,
        !has_key(s, k),
        limit_ok(s.len(), limit),
    ensures
        replies_model(insert_all(s, k, xs, h, limit), k) == lastn(xs, h),
{
    law_per_key_fifo(s, k, xs, h, limit);
    law_exact_replay(insert_all(s, k, xs, h, limit), k);
}

/// Wildcard soundness: every reply to a wildcard scan comes from an entry
/// whose stored key intersects the selector.
pub proof fn law_wildcard_soundness(s: Seq<EntryV>, sel: Seq<Seq<u8>>)
    ensures
        forall|x: SampleV| #[trigger]
            scan(s, sel).contains(x) ==> exists|i: int|
                0 <= i < s.len() && #[trigger] inter(sel, s[i].key) && s[i].samples.contains(x),
    decreases s.len(),
{
    if s.len() == 0 {
    } else {
        law_wildcard_soundness(s.skip(1), sel);
        assert forall|x: SampleV| #[trigger] scan(s, sel).contains(x) implies exists|i: int|
            0 <= i < s.len() && #[trigger] inter(sel, s[i].key) && s[i].samples.contains(x) by {
            let head = if inter(sel, s[0].key) {
                s[0].samples
            } else {
                Seq::<SampleV>::empty()
            };
            let j = choose|j: int| 0 <= j < scan(s, sel).len() && scan(s, sel)[j] == x;
            if j < head.len() {
                assert(s[0].samples[j] == x);
                assert(s[0].samples.contains(x));
                assert(0 <= 0 < s.len() && inter(sel, s[0].key) && s[0].samples.contains(x));
            } else {
                assert(scan(s.skip(1), sel)[j - head.len()] == x);
                assert(scan(s.skip(1), sel).contains(x));
                let i0 = choose|i0: int|
                    0 <= i0 < s.skip(1).len() && #[trigger] inter(sel, s.skip(1)[i0].key)
                        && s.skip(1)[i0].samples.contains(x);
                assert(s[i0 + 1] == s.skip(1)[i0]);
                assert(0 <= i0 + 1 < s.len() && inter(sel, s[i0 + 1].key) && s[i0
                    + 1].samples.contains(x));
            }
        }
    }
}

/// Wildcard completeness: for every stored key intersecting the selector,
/// the entry's whole sample run appears in the replies, contiguously and
/// in insertion order.
pub proof fn law_wildcard_completeness(s: Seq<EntryV>, sel: Seq<Seq<u8>>, i: int)
    requires
        0 <= i < s.len(),
        inter(sel, s[i].key),
    ensures
        exists|o: int|
            0 <= o && o + s[i].samples.len() <= scan(s, sel).len() && #[trigger] scan(
                s,
                sel,
            ).subrange(o, o + s[i].samples.len()) == s[i].samples,
    decreases i,
{
    let head = if inter(sel, s[0].key) {
        s[0].samples
    } else {
        Seq::<SampleV>::empty()
    };
    if i == 0 {
        let o0: int = 0;
        assert(scan(s, sel).subrange(o0, o0 + s[0].samples.len()) =~= s[0].samples);
        assert(o0 + s[i].samples.len() <= scan(s, sel).len());
        assert(scan(s, sel).subrange(o0, o0 + s[i].samples.len()) == s[i].samples);
    } else {
        assert(s.skip(1)[i - 1] == s[i]);
        law_wildcard_completeness(s.skip(1), sel, i - 1);
        let m = s[i].samples.len() as int;
        let o1 = choose|o1: int|
            0 <= o1 && o1 + s.skip(1)[i - 1].samples.len() <= scan(s.skip(1), sel).len()
                && #[trigger] scan(s.skip(1), sel).subrange(
                o1,
                o1 + s.skip(1)[i - 1].samples.len(),
            ) == s.skip(1)[i - 1].samples;
        let o = o1 + head.len();
        assert(scan(s, sel).subrange(o, o + m) =~= scan(s.skip(1), sel).subrange(o1, o1 + m));
        assert(0 <= o && o + s[i].samples.len() <= scan(s, sel).len());
        assert(scan(s, sel).subrange(o, o + s[i].samples.len()) == s[i].samples);
    }
}

} // verus!
