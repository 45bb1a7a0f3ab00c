//! Records of receives, and what a capture makes of them.
use crate::frame::FrameKey;
use vstd::prelude::*;

verus! {

/// A record of receives in the order they were made: the identity of the
/// frame for one that delivered, `None` for one that failed.
pub type Trace = Seq<Option<FrameKey>>;

/// How many receives of the trace delivered a frame.
pub open spec fn successes(trace: Trace) -> nat
    decreases trace.len(),
{
    if trace.len() == 0 {
        0
    } else {
        successes(trace.drop_last()) + if trace.last() is Some {
            1nat
        } else {
            0nat
        }
    }
}

/// How many receives of the trace failed.
pub open spec fn failures(trace: Trace) -> nat {
    (trace.len() - successes(trace)) as nat
}

/// The identities that the trace delivered.
pub open spec fn seen(trace: Trace) -> Set<FrameKey> {
    Set::new(|key: FrameKey| trace.contains(Some(key)))
}

/// No identity is delivered twice in the trace.
pub open spec fn deliveries_distinct(trace: Trace) -> bool {
    forall|i: int, j: int|
        0 <= i < j < trace.len() && trace[i] is Some ==> #[trigger] trace[i] != #[trigger] trace[j]
}

/// A capture with target `target` that is fed the trace makes exactly
/// `calls` receives: it takes outcomes from the front, never goes on once
/// `target` of them delivered a frame, and stops short of the end of the
/// trace for no other reason.
pub open spec fn stops_at(trace: Trace, target: nat, calls: int) -> bool {
    &&& 0 <= calls <= trace.len()
    &&& successes(trace.take(calls)) <= target
    &&& calls < trace.len() ==> successes(trace.take(calls)) == target
    &&& forall|m: int| 0 <= m < calls ==> #[trigger] successes(trace.take(m)) < target
}

/// No more receives delivered than were made.
pub proof fn lemma_successes_bounded(trace: Trace)
    ensures
        successes(trace) <= trace.len(),
    decreases trace.len(),
{
    if trace.len() > 0 {
        lemma_successes_bounded(trace.drop_last());
    }
}

/// One more receive adds one to the count if it delivered, nothing if not.
pub proof fn lemma_successes_step(trace: Trace, m: int)
    requires
        0 <= m < trace.len(),
    ensures
        successes(trace.take(m + 1)) == successes(trace.take(m)) + if trace[m] is Some {
            1nat
        } else {
            0nat
        },
{
    assert(trace.take(m + 1).drop_last() =~= trace.take(m));
}

/// A longer prefix has delivered at least as much as a shorter one.
pub proof fn lemma_successes_monotone(trace: Trace, m1: int, m2: int)
    requires
        0 <= m1 <= m2 <= trace.len(),
    ensures
        successes(trace.take(m1)) <= successes(trace.take(m2)),
    decreases m2 - m1,
{
    if m1 < m2 {
        lemma_successes_monotone(trace, m1, m2 - 1);
        lemma_successes_step(trace, m2 - 1);
    }
}

/// One more receive adds its identity to those seen if it delivered,
/// nothing if not.
pub proof fn lemma_seen_step(trace: Trace, m: int)
    requires
        0 <= m < trace.len(),
    ensures
        seen(trace.take(m + 1)) == match trace[m] {
            Some(key) => seen(trace.take(m)).insert(key),
            None => seen(trace.take(m)),
        },
{
    let shorter = trace.take(m);
    let longer = trace.take(m + 1);
    let expected = match trace[m] {
        Some(key) => seen(shorter).insert(key),
        None => seen(shorter),
    };
    assert forall|key: FrameKey| seen(longer).contains(key) <==> expected.contains(key) by {
        if longer.contains(Some(key)) {
            let i = choose|i: int| 0 <= i < longer.len() && longer[i] == Some(key);
            if i < m {
                assert(shorter[i] == Some(key));
            }
        }
        if shorter.contains(Some(key)) {
            let i = choose|i: int| 0 <= i < shorter.len() && shorter[i] == Some(key);
            assert(longer[i] == Some(key));
        }
        if trace[m] == Some(key) {
            assert(longer[m] == Some(key));
        }
    }
    assert(seen(longer) =~= expected);
}

/// The identities seen are finitely many, no more than the receives that
/// delivered, and exactly as many where no identity was delivered twice.
pub proof fn lemma_seen_bounded(trace: Trace)
    ensures
        seen(trace).finite(),
        seen(trace).len() <= successes(trace),
        deliveries_distinct(trace) ==> seen(trace).len() == successes(trace),
    decreases trace.len(),
{
    if trace.len() == 0 {
        assert(seen(trace) =~= Set::<FrameKey>::empty());
    } else {
        let m = trace.len() - 1;
        let shorter = trace.take(m);
        assert(trace.take(m + 1) =~= trace);
        lemma_seen_bounded(shorter);
        lemma_seen_step(trace, m);
        lemma_successes_step(trace, m);
        if deliveries_distinct(trace) {
            assert(deliveries_distinct(shorter));
            if let Some(key) = trace[m] {
                if shorter.contains(Some(key)) {
                    let i = choose|i: int| 0 <= i < shorter.len() && shorter[i] == Some(key);
                    assert(trace[i] == trace[m]);
                }
            }
        }
    }
}

/// Only one number of receives fits a trace and a target.
pub proof fn law_stop_point_unique(trace: Trace, target: nat, calls1: int, calls2: int)
    requires
        stops_at(trace, target, calls1),
        stops_at(trace, target, calls2),
    ensures
        calls1 == calls2,
{
}

/// With a target of zero no receive is made and nothing is observed.
pub proof fn law_zero_target(trace: Trace, calls: int)
    requires
        stops_at(trace, 0, calls),
    ensures
        calls == 0,
        seen(trace.take(calls)) == Set::<FrameKey>::empty(),
{
    if calls > 0 {
        assert(successes(trace.take(0)) < 0);
    }
    assert(seen(trace.take(0)) =~= Set::<FrameKey>::empty());
}

/// Where the target equals the number of receives that deliver, and the
/// trace does not end on a failed receive, the capture makes every receive
/// of the trace: as many as delivered plus as many as failed. It observes
/// no more identities than the target, and exactly as many where no
/// identity is delivered twice.
pub proof fn law_attempt_accounting(trace: Trace, calls: int)
    requires
        trace.len() > 0 ==> trace.last() is Some,
        stops_at(trace, successes(trace), calls),
    ensures
        calls == successes(trace) + failures(trace),
        seen(trace.take(calls)).finite(),
        seen(trace.take(calls)).len() <= successes(trace),
        deliveries_distinct(trace) ==> seen(trace.take(calls)).len() == successes(trace),
{
    if calls < trace.len() {
        let m = trace.len() - 1;
        assert(trace.take(m + 1) =~= trace);
        lemma_successes_step(trace, m);
        lemma_successes_monotone(trace, calls, m);
    }
    assert(trace.take(calls) =~= trace);
    lemma_successes_bounded(trace);
    lemma_seen_bounded(trace);
}

} // verus!
