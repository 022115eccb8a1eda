//! The cache task's decision logic, and the handle's lifecycle.
//!
//! The task multiplexes three event sources: publications from the
//! subscriber, queries from the queryable, and the shutdown signal. One
//! `handle_event` call is one loop iteration of the task: it owns the
//! store exclusively, mutates it for publications, computes the ordered
//! replies for queries, and stops on shutdown. The surrounding runtime
//! waits on the channels, calls `handle_event` with whatever arrived, then
//! sends each reply (logging a failed send and carrying on) and logs the
//! rejected key of a publication refused by the key cap.

use vstd::prelude::*;

use crate::builder::CacheConfig;
use crate::keyexpr::{concrete_key, lemma_join_concrete, KeyExpr};
use crate::responder::{law_exact_replay, replies_for, replies_model};
use crate::store::{
    distinct_keys, has_key, insert_model, insert_stored, lemma_insert_other, lemma_insert_same,
    limit_ok, push_step, CacheStore, EntryV, Sample, SampleV,
};

verus! {

/// A query as the cache sees it: the selector's key expression and the
/// selector's raw parameters, which the cache ignores.
pub struct QueryMsg {
    pub selector: KeyExpr,
    pub parameters: Vec<u8>,
}

/// One event of the cache task's loop.
pub enum CacheEvent {
    Publication(Sample),
    Query(QueryMsg),
    Shutdown,
}

/// What one step asks the surrounding runtime to do.
pub struct StepOutput {
    /// Replies to send, in order, for a query event.
    pub replies: Vec<Sample>,
    /// The stored key of a publication refused because the store already
    /// holds the full number of distinct keys; to be logged. The sample
    /// was discarded and the store is unchanged.
    pub rejected: Option<KeyExpr>,
    /// Whether the task is stopped after this step.
    pub stopped: bool,
}

/// The running cache: the store, the optional prefix under which samples
/// are stored, and the lifecycle state of the task and its two endpoints.
pub struct ReliabilityCache {
    pub store: CacheStore,
    pub queryable_prefix: Option<KeyExpr>,
    pub running: bool,
    pub subscriber_declared: bool,
    pub queryable_declared: bool,
}

/// The ordered actions a close hands to the runtime.
#[derive(Clone, Copy, Debug, PartialEq, Eq, Structural)]
pub enum CloseAction {
    SignalStop,
    UndeclareQueryable,
    UndeclareSubscriber,
}

impl ReliabilityCache {
    /// Well-formedness: the store is well-formed and the prefix, when
    /// present, is canonical.
    pub open spec fn wf(&self) -> bool {
        &&& self.store.wf()
        &&& match self.queryable_prefix {
            Option::Some(p) => p.wf(),
            Option::None => true,
        }
    }

    /// The key a publication on `k` is stored under.
    pub open spec fn stored_key_of(&self, k: Seq<Seq<u8>>) -> Seq<Seq<u8>> {
        match self.queryable_prefix {
            Option::Some(p) => p@ + k,
            Option::None => k,
        }
    }

    /// The cache as it starts running, once the runtime has declared the
    /// subscriber and the queryable of a validated configuration: an empty
    /// store under the configured bounds.
    pub fn start(config: CacheConfig) -> (c: ReliabilityCache)
        requires
            config.wf(),
        ensures
            c.wf(),
            c.running,
            c.subscriber_declared,
            c.queryable_declared,
            c.store@ == Seq::<EntryV>::empty(),
            c.store.history == config.history,
            c.store.resources_limit == config.resources_limit,
            c.queryable_prefix == config.queryable_prefix,
    {
        ReliabilityCache {
            store: CacheStore::new(config.history, config.resources_limit),
            queryable_prefix: config.queryable_prefix,
            running: true,
            subscriber_declared: true,
            queryable_declared: true,
        }
    }

    /// One iteration of the cache task's loop.
    ///
    /// A publication is stored under its (possibly prefixed) key, the
    /// store taking one insertion step; a refused insertion reports the
    /// key to log. A query leaves the store unchanged and yields exactly
    /// the replies of `replies_model`, in order. Shutdown stops the task.
    /// A stopped task changes nothing and replies to nothing.
    pub fn handle_event(&mut self, event: CacheEvent) -> (out: StepOutput)
        requires
            old(self).wf(),
            event matches CacheEvent::Publication(s) ==> concrete_key(s.key@),
            event matches CacheEvent::Query(q) ==> q.selector.wf(),
        ensures
            final(self).wf(),
            final(self).queryable_prefix == old(self).queryable_prefix,
            final(self).store.history == old(self).store.history,
            final(self).store.resources_limit == old(self).store.resources_limit,
            final(self).subscriber_declared == old(self).subscriber_declared,
            final(self).queryable_declared == old(self).queryable_declared,
            out.stopped == !final(self).running,
            !old(self).running ==> !final(self).running && final(self).store@ == old(
                self,
            ).store@ && out.replies@.len() == 0 && out.rejected is None,
            old(self).running ==> match event {
                CacheEvent::Publication(s) => {
                    &&& final(self).running
                    &&& final(self).store@ == insert_model(
                        old(self).store@,
                        old(self).stored_key_of(s.key@),
                        s@,
                        old(self).store.history as nat,
                        old(self).store.resources_limit,
                    )
                    &&& out.replies@.len() == 0
                    &&& (out.rejected is None <==> insert_stored(
                        old(self).store@,
                        old(self).stored_key_of(s.key@),
                        old(self).store.resources_limit,
                    ))
                    &&& (out.rejected matches Some(kk) ==> kk@ == old(self).stored_key_of(s.key@))
                },
                CacheEvent::Query(q) => {
                    &&& final(self).running
                    &&& final(self).store@ == old(self).store@
                    &&& out.replies@.map_values(|s: Sample| s@) == replies_model(
                        old(self).store@,
                        q.selector@,
                    )
                    &&& out.rejected is None
                },
                CacheEvent::Shutdown => {
                    &&& !final(self).running
                    &&& final(self).store@ == old(self).store@
                    &&& out.replies@.len() == 0
                    &&& out.rejected is None
                },
            },
    {
        if !self.running {
            return StepOutput { replies: Vec::new(), rejected: Option::None, stopped: true };
        }
        match event {
            CacheEvent::Publication(sample) => {
                let stored_key = match &self.queryable_prefix {
                    Option::Some(p) => p.join(&sample.key),
                    Option::None => sample.key.clone(),
                };
                let logged_key = stored_key.clone();
                let stored = self.store.insert(stored_key, sample);
                let rejected = if stored {
                    Option::None
                } else {
                    Option::Some(logged_key)
                };
                StepOutput { replies: Vec::new(), rejected, stopped: false }
            },
            CacheEvent::Query(q) => {
                let replies = replies_for(&self.store, &q.selector);
                StepOutput { replies, rejected: Option::None, stopped: false }
            },
            CacheEvent::Shutdown => {
                self.running = false;
                StepOutput { replies: Vec::new(), rejected: Option::None, stopped: true }
            },
        }
    }

    /// Close the cache: stop the task, then release the queryable and the
    /// subscriber. The returned actions are to be awaited by the runtime
    /// in order. Once closed, nothing is running or declared, so a later
    /// close finds nothing to do: each endpoint is released exactly once.
    pub fn close(&mut self) -> (actions: Vec<CloseAction>)
        ensures
            !final(self).running,
            !final(self).subscriber_declared,
            !final(self).queryable_declared,
            final(self).store@ == old(self).store@,
            final(self).queryable_prefix == old(self).queryable_prefix,
            final(self).store.history == old(self).store.history,
            final(self).store.resources_limit == old(self).store.resources_limit,
            old(self).running && old(self).subscriber_declared && old(self).queryable_declared
                ==> actions@ == seq![
                CloseAction::SignalStop,
                CloseAction::UndeclareQueryable,
                CloseAction::UndeclareSubscriber,
            ],
            !old(self).running && !old(self).subscriber_declared && !old(self).queryable_declared
                ==> actions@ == Seq::<CloseAction>::empty(),
    {
        let mut actions: Vec<CloseAction> = Vec::new();
        if self.running {
            actions.push(CloseAction::SignalStop);
            self.running = false;
        }
        if self.queryable_declared {
            actions.push(CloseAction::UndeclareQueryable);
            self.queryable_declared = false;
        }
        if self.subscriber_declared {
            actions.push(CloseAction::UndeclareSubscriber);
            self.subscriber_declared = false;
        }
        if actions.len() == 3 {
            assert(actions@ =~= seq![
                CloseAction::SignalStop,
                CloseAction::UndeclareQueryable,
                CloseAction::UndeclareSubscriber,
            ]);
        }
        if actions.len() == 0 {
            assert(actions@ =~= Seq::<CloseAction>::empty());
        }
        return actions;
    }
}

/// Prefix semantics: with a queryable prefix `p`, a sample published on a
/// fresh concrete key `k` is stored under `p + k`; a query on `p + k`
/// replays it, while a query on `k` alone finds nothing.
pub proof fn law_prefix_semantics(
    s: Seq<EntryV>,
    p: Seq<Seq<u8>>,
    k: Seq<Seq<u8>>,
    x: SampleV,
    h: nat,
    limit: Option<usize>,
)
    requires
        distinct_keys(s),
        concrete_key(p),
        concrete_key(k),
        !has_key(s, p + k),
        !has_key(s, k),
        limit_ok(s.len(), limit),
    ensures
        replies_model(insert_model(s, p + k, x, h, limit), p + k) == seq![x],
        replies_model(insert_model(s, p + k, x, h, limit), k) == Seq::<SampleV>::empty(),
{
    lemma_join_concrete(p, k);
    lemma_insert_same(s, p + k, x, h, limit);
    let t = insert_model(s, p + k, x, h, limit);
    assert((p + k).len() != k.len());
    lemma_insert_other(s, p + k, x, h, limit, k);
    law_exact_replay(t, p + k);
    law_exact_replay(t, k);
    assert(push_step(Seq::<SampleV>::empty(), x, h) =~= seq![x]);
}

} // verus!
