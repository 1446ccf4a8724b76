//! Model of a delay queue: a queue whose only purpose is to hold each
//! message for a fixed time-to-live and then dead-letter it back to a
//! working queue.
//!
//! The creation retry queue and the deferred-deletion queue are both of
//! this shape. The broker owns the clock; this model makes its behaviour
//! explicit: a message becomes due only once its time-to-live has passed,
//! and dead-lettering moves exactly the due messages, in order.
use vstd::prelude::*;

verus! {

/// One message parked on a delay queue.
#[derive(Debug)]
pub struct QueuedMessage {
    /// The raw payload, byte for byte as it will be redelivered.
    pub payload: Vec<u8>,
    /// When the message was published onto the delay queue.
    pub enqueued_at_ms: u64,
    /// How long the queue holds it before dead-lettering it.
    pub ttl_ms: u64,
}

/// Specification-level counterpart of [`QueuedMessage`].
pub struct SpecQueuedMessage {
    /// The raw payload.
    pub payload: Seq<u8>,
    /// When the message was published onto the delay queue.
    pub enqueued_at_ms: u64,
    /// How long the queue holds it.
    pub ttl_ms: u64,
}

impl View for QueuedMessage {
    type V = SpecQueuedMessage;

    open spec fn view(&self) -> SpecQueuedMessage {
        SpecQueuedMessage {
            payload: self.payload@,
            enqueued_at_ms: self.enqueued_at_ms,
            ttl_ms: self.ttl_ms,
        }
    }
}

impl DeepView for QueuedMessage {
    type V = SpecQueuedMessage;

    open spec fn deep_view(&self) -> SpecQueuedMessage {
        self@
    }
}

/// Whether a parked message's time-to-live has passed at `now_ms`.
pub open spec fn is_due(m: SpecQueuedMessage, now_ms: u64) -> bool {
    now_ms >= m.enqueued_at_ms + m.ttl_ms
}

/// The payloads that dead-lettering at `now_ms` redelivers, in order.
pub open spec fn due_payloads(q: Seq<SpecQueuedMessage>, now_ms: u64) -> Seq<Seq<u8>>
    decreases q.len(),
{
    if q.len() == 0 {
        Seq::empty()
    } else {
        (if is_due(q[0], now_ms) {
            seq![q[0].payload]
        } else {
            Seq::empty()
        }) + due_payloads(q.skip(1), now_ms)
    }
}

/// The messages still parked after dead-lettering at `now_ms`, in order.
pub open spec fn still_parked(q: Seq<SpecQueuedMessage>, now_ms: u64) -> Seq<SpecQueuedMessage>
    decreases q.len(),
{
    if q.len() == 0 {
        Seq::empty()
    } else {
        (if is_due(q[0], now_ms) {
            Seq::empty()
        } else {
            seq![q[0]]
        }) + still_parked(q.skip(1), now_ms)
    }
}

proof fn lemma_due_payloads_snoc(q: Seq<SpecQueuedMessage>, now_ms: u64)
    requires
        q.len() > 0,
    ensures
        due_payloads(q, now_ms) == due_payloads(q.drop_last(), now_ms) + (if is_due(
            q.last(),
            now_ms,
        ) {
            seq![q.last().payload]
        } else {
            Seq::<Seq<u8>>::empty()
        }),
    decreases q.len(),
{
    if q.len() == 1 {
        assert(q.skip(1) =~= Seq::<SpecQueuedMessage>::empty());
        assert(q.drop_last() =~= Seq::<SpecQueuedMessage>::empty());
        assert(due_payloads(q, now_ms) =~= due_payloads(q.drop_last(), now_ms) + (if is_due(
            q.last(),
            now_ms,
        ) {
            seq![q.last().payload]
        } else {
            Seq::<Seq<u8>>::empty()
        }));
    } else {
        lemma_due_payloads_snoc(q.skip(1), now_ms);
        assert(q.skip(1).drop_last() =~= q.drop_last().skip(1));
        assert(q.skip(1).last() == q.last());
        assert(q.drop_last()[0] == q[0]);
        assert(due_payloads(q, now_ms) =~= due_payloads(q.drop_last(), now_ms) + (if is_due(
            q.last(),
            now_ms,
        ) {
            seq![q.last().payload]
        } else {
            Seq::<Seq<u8>>::empty()
        }));
    }
}

proof fn lemma_still_parked_snoc(q: Seq<SpecQueuedMessage>, now_ms: u64)
    requires
        q.len() > 0,
    ensures
        still_parked(q, now_ms) == still_parked(q.drop_last(), now_ms) + (if is_due(
            q.last(),
            now_ms,
        ) {
            Seq::<SpecQueuedMessage>::empty()
        } else {
            seq![q.last()]
        }),
    decreases q.len(),
{
    if q.len() == 1 {
        assert(q.skip(1) =~= Seq::<SpecQueuedMessage>::empty());
        assert(q.drop_last() =~= Seq::<SpecQueuedMessage>::empty());
        assert(still_parked(q, now_ms) =~= still_parked(q.drop_last(), now_ms) + (if is_due(
            q.last(),
            now_ms,
        ) {
            Seq::<SpecQueuedMessage>::empty()
        } else {
            seq![q.last()]
        }));
    } else {
        lemma_still_parked_snoc(q.skip(1), now_ms);
        assert(q.skip(1).drop_last() =~= q.drop_last().skip(1));
        assert(q.skip(1).last() == q.last());
        assert(q.drop_last()[0] == q[0]);
        assert(still_parked(q, now_ms) =~= still_parked(q.drop_last(), now_ms) + (if is_due(
            q.last(),
            now_ms,
        ) {
            Seq::<SpecQueuedMessage>::empty()
        } else {
            seq![q.last()]
        }));
    }
}

/// Dead-letters the due messages of `q` at `now_ms`: returns exactly
/// the due payloads in order, for redelivery to the queue's target, and
/// keeps exactly the rest parked, in order.
pub fn dead_letter_due(q: &mut Vec<QueuedMessage>, now_ms: u64) -> (r: Vec<Vec<u8>>)
    ensures
        r.deep_view() == due_payloads(old(q).deep_view(), now_ms),
        final(q).deep_view() == still_parked(old(q).deep_view(), now_ms),
{
    let mut kept: Vec<QueuedMessage> = Vec::new();
    let mut due: Vec<Vec<u8>> = Vec::new();
    let n = q.len();
    let mut i: usize = 0;
    while i < n
        invariant
            i <= n == q@.len(),
            q.deep_view() == old(q).deep_view(),
            due.deep_view() == due_payloads(old(q).deep_view().take(i as int), now_ms),
            kept.deep_view() == still_parked(old(q).deep_view().take(i as int), now_ms),
        decreases n - i,
    {
        let m = &q[i];
        let ghost due_before = due.deep_view();
        let ghost kept_before = kept.deep_view();
        proof {
            assert(q.deep_view()[i as int] == m@);
        }
        let due_now = match m.enqueued_at_ms.checked_add(m.ttl_ms) {
            Some(deadline) => now_ms >= deadline,
            None => false,
        };
        proof {
            assert(due_now == is_due(m@, now_ms));
        }
        if due_now {
            let payload = crate::text::copy_range(&m.payload, 0, m.payload.len());
            proof {
                assert(payload@ =~= m@.payload);
            }
            due.push(payload);
            proof {
                assert(due.deep_view() =~~= due_before.push(m@.payload));
            }
        } else {
            let parked = QueuedMessage {
                payload: crate::text::copy_range(&m.payload, 0, m.payload.len()),
                enqueued_at_ms: m.enqueued_at_ms,
                ttl_ms: m.ttl_ms,
            };
            proof {
                assert(parked.payload@ =~= m.payload@);
                assert(parked@ == m@);
            }
            kept.push(parked);
            proof {
                assert(kept.deep_view() =~= kept_before.push(m@));
            }
        }
        i += 1;
        proof {
            let now = old(q).deep_view().take(i as int);
            assert(now.drop_last() =~= old(q).deep_view().take(i - 1));
            assert(now.last() == old(q).deep_view()[i - 1]);
            lemma_due_payloads_snoc(now, now_ms);
            lemma_still_parked_snoc(now, now_ms);
            assert(due.deep_view() =~= due_payloads(now, now_ms));
            assert(kept.deep_view() =~= still_parked(now, now_ms));
        }
    }
    proof {
        assert(old(q).deep_view().take(n as int) =~= old(q).deep_view());
    }
    *q = kept;
    due
}

/// A message parked with a time-to-live is not redelivered before that
/// time has passed: the delayed-redelivery guarantee of the retry and
/// deferred-deletion queues.
pub proof fn lemma_no_early_redelivery(q: Seq<SpecQueuedMessage>, now_ms: u64, k: int)
    requires
        0 <= k < q.len(),
        now_ms < q[k].enqueued_at_ms + q[k].ttl_ms,
    ensures
        still_parked(q, now_ms).contains(q[k]),
    decreases q.len(),
{
    if k == 0 {
        assert(still_parked(q, now_ms)[0] == q[0]);
    } else {
        lemma_no_early_redelivery(q.skip(1), now_ms, k - 1);
        let inner = still_parked(q.skip(1), now_ms);
        let j = choose|j: int| 0 <= j < inner.len() && inner[j] == q[k];
        if is_due(q[0], now_ms) {
            assert(still_parked(q, now_ms)[j] == q[k]);
        } else {
            assert(still_parked(q, now_ms)[j + 1] == q[k]);
        }
    }
}

} // verus!
