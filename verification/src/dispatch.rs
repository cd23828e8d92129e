//! The dispatcher's per-iteration decision: which queue sends next.
//!
//! Queues are scanned in fixed priority order. A limited-class queue is
//! passed over while the shared rate state says the class is cooling
//! down; the first queue that is both rate-eligible and non-empty gives
//! up its most recent message. The embedding loop performs the blocking
//! send and the waits; everything it needs to decide how long to wait
//! comes out of `select_next`.
use vstd::prelude::*;

use crate::queue::{
    QueueView, Telegram, TelegramState, spec_dequeue_result, spec_dequeue_state,
};

verus! {

/// Minimum number of time units between two limited-class sends.
pub const RECRUITMENT_TELEGRAM_INTERVAL: u64 = 181;

/// Pause after any send, whatever its class.
pub const NORMAL_TELEGRAM_INTERVAL: u64 = 61;

/// One shared timestamp: when the limited class last sent. Set to "now"
/// at startup, so the first limited-class send also waits out the full
/// interval measured from process start.
pub struct RateState {
    pub last_limited_send: u64,
}

impl RateState {
    pub fn new(now: u64) -> (r: RateState)
        ensures
            r.last_limited_send == now,
    {
        RateState { last_limited_send: now }
    }
}

/// Time since the last limited-class send; a clock that appears to run
/// backwards counts as no time passed.
pub open spec fn spec_elapsed(last: u64, now: u64) -> int {
    if now >= last {
        now - last
    } else {
        0
    }
}

/// Whether the limited class may send at `now`.
pub open spec fn spec_can_recruit(last: u64, now: u64) -> bool {
    spec_elapsed(last, now) >= RECRUITMENT_TELEGRAM_INTERVAL
}

/// The remaining cooldown, or `None` once the limited class may send.
pub open spec fn spec_recruit_delay(last: u64, now: u64) -> Option<u64> {
    if spec_can_recruit(last, now) {
        None
    } else {
        Some((RECRUITMENT_TELEGRAM_INTERVAL - spec_elapsed(last, now)) as u64)
    }
}

pub fn calculate_recruit_delay(last_recruitment_time: u64, now: u64) -> (r: Option<u64>)
    ensures
        r == spec_recruit_delay(last_recruitment_time, now),
{
    let time_since_last_recruit: u64 = if now >= last_recruitment_time {
        now - last_recruitment_time
    } else {
        0
    };
    if time_since_last_recruit >= RECRUITMENT_TELEGRAM_INTERVAL {
        None
    } else {
        Some(RECRUITMENT_TELEGRAM_INTERVAL - time_since_last_recruit)
    }
}

pub fn can_recruit(last_recruitment_time: u64, now: u64) -> (r: bool)
    ensures
        r == spec_can_recruit(last_recruitment_time, now),
{
    calculate_recruit_delay(last_recruitment_time, now).is_none()
}

/// Whether a queue may hand out a message under the given eligibility of
/// the limited class.
pub open spec fn spec_sendable(q: QueueView, eligible: bool) -> bool {
    q.msgs.len() > 0 && (q.recruitment ==> eligible)
}

/// The first queue, in priority order, that may send.
pub open spec fn spec_first_sendable(qs: Seq<QueueView>, eligible: bool) -> Option<int>
    decreases qs.len(),
{
    if qs.len() == 0 {
        None
    } else if spec_sendable(qs[0], eligible) {
        Some(0int)
    } else {
        match spec_first_sendable(qs.drop_first(), eligible) {
            Some(i) => Some(i + 1),
            None => None,
        }
    }
}

pub proof fn lemma_first_sendable(qs: Seq<QueueView>, eligible: bool)
    ensures
        match spec_first_sendable(qs, eligible) {
            Some(i) => 0 <= i < qs.len() && spec_sendable(qs[i], eligible) && forall|j: int|
                0 <= j < i ==> !spec_sendable(qs[j], eligible),
            None => forall|j: int| 0 <= j < qs.len() ==> !spec_sendable(qs[j], eligible),
        },
    decreases qs.len(),
{
    if qs.len() > 0 && !spec_sendable(qs[0], eligible) {
        let rest = qs.drop_first();
        lemma_first_sendable(rest, eligible);
        assert forall|j: int| 0 <= j < rest.len() implies rest[j] == qs[j + 1] by {}
        match spec_first_sendable(rest, eligible) {
            Some(i) => {
                assert(qs[i + 1] == rest[i]);
                assert forall|j: int| 0 <= j < i + 1 implies !spec_sendable(
                    qs[j],
                    eligible,
                ) by {
                    if j > 0 {
                        assert(rest[j - 1] == qs[j]);
                    }
                }
            },
            None => {
                assert forall|j: int| 0 <= j < qs.len() implies !spec_sendable(
                    qs[j],
                    eligible,
                ) by {
                    if j > 0 {
                        assert(rest[j - 1] == qs[j]);
                    }
                }
            },
        }
    }
}

/// Whether some limited-class queue among the first `upto` holds work;
/// while the class cools down, such work is what the dispatcher sets a
/// timer for.
pub open spec fn spec_cooling_pending(qs: Seq<QueueView>, upto: int) -> bool {
    exists|i: int| 0 <= i < upto && qs[i].recruitment && qs[i].msgs.len() > 0
}

/// Law: while the limited class cools down, no limited-class queue is
/// selected, however often the queues are scanned and whatever they
/// hold. Together with `select_next`'s contract — the rate state only
/// moves to `now` on a limited-class selection — no two limited-class
/// sends lie closer than the full interval.
pub proof fn lemma_rate_limit(qs: Seq<QueueView>, last: u64, now: u64)
    requires
        !spec_can_recruit(last, now),
    ensures
        match spec_first_sendable(qs, spec_can_recruit(last, now)) {
            Some(i) => !qs[i].recruitment,
            None => true,
        },
{
    lemma_first_sendable(qs, spec_can_recruit(last, now));
}

/// Law: priority is a strict preference. When the first queue may send
/// — it is non-empty, and rate-eligible if limited — it is selected,
/// whatever the later queues hold.
pub proof fn lemma_priority(qs: Seq<QueueView>, eligible: bool)
    requires
        qs.len() > 0,
        spec_sendable(qs[0], eligible),
    ensures
        spec_first_sendable(qs, eligible) == Some(0int),
{
}

/// The queue the dispatcher takes from at `now`, if any.
pub open spec fn spec_selected(qs: Seq<QueueView>, last: u64, now: u64) -> Option<int> {
    spec_first_sendable(qs, spec_can_recruit(last, now))
}

/// The cooldown the dispatcher reports: the remaining wait, when limited
/// work had to be passed over before the scan ended.
pub open spec fn spec_reported_delay(qs: Seq<QueueView>, last: u64, now: u64) -> Option<
    u64,
> {
    let elig = spec_can_recruit(last, now);
    let scan_end = match spec_first_sendable(qs, elig) {
        Some(i) => i,
        None => qs.len() as int,
    };
    if !elig && spec_cooling_pending(qs, scan_end) {
        spec_recruit_delay(last, now)
    } else {
        None
    }
}

/// One dispatcher scan. Pops the most recent message of the first queue
/// that may send; moves the rate state to `now` exactly when that queue
/// is limited-class; and reports the remaining cooldown when limited
/// work had to be passed over.
pub fn select_next(state: &mut TelegramState, rate: &mut RateState, now: u64) -> (r: (
    Option<Telegram>,
    Option<u64>,
))
    ensures
        spec_selected(old(state)@, old(rate).last_limited_send, now) matches Some(i)
            ==> r.0 matches Some(t) && t@ == old(state)@[i].msgs.last(),
        spec_selected(old(state)@, old(rate).last_limited_send, now) matches Some(i)
            ==> final(state)@ == old(state)@.update(
            i,
            spec_dequeue_state(old(state)@[i]),
        ),
        spec_selected(old(state)@, old(rate).last_limited_send, now) matches Some(i)
            ==> final(rate).last_limited_send == (if old(state)@[i].recruitment {
            now
        } else {
            old(rate).last_limited_send
        }),
        spec_selected(old(state)@, old(rate).last_limited_send, now) is None ==> r.0
            is None && final(state)@ == old(state)@ && *final(rate) == *old(rate),
        r.1 == spec_reported_delay(old(state)@, old(rate).last_limited_send, now),
{
    let ghost qs = old(state)@;
    let elig = can_recruit(rate.last_limited_send, now);
    proof {
        lemma_first_sendable(qs, elig);
    }
    let n = state.queue_count();
    let mut delay: Option<u64> = None;
    let mut i: usize = 0;
    while i < n
        invariant
            qs == old(state)@,
            n == qs.len(),
            i <= n,
            state@ == qs,
            *rate == *old(rate),
            elig == spec_can_recruit(old(rate).last_limited_send, now),
            forall|j: int| 0 <= j < i ==> !spec_sendable(qs[j], elig),
            delay == (if !elig && spec_cooling_pending(qs, i as int) {
                spec_recruit_delay(old(rate).last_limited_send, now)
            } else {
                None::<u64>
            }),
            match spec_first_sendable(qs, elig) {
                Some(k) => 0 <= k < n && spec_sendable(qs[k], elig) && forall|j: int|
                    0 <= j < k ==> !spec_sendable(qs[j], elig),
                None => forall|j: int| 0 <= j < n ==> !spec_sendable(qs[j], elig),
            },
        decreases n - i,
    {
        let is_rec = state.queue_is_recruitment(i);
        let pending = state.queue_pending(i);
        if is_rec && !elig {
            if pending > 0 {
                delay = calculate_recruit_delay(rate.last_limited_send, now);
                proof {
                    assert(spec_cooling_pending(qs, i as int + 1));
                }
            } else {
                proof {
                    assert forall|k: int| 0 <= k < i as int + 1 && qs[k].recruitment
                        && qs[k].msgs.len() > 0 implies 0 <= k < i as int by {}
                }
            }
        } else {
            if pending > 0 {
                proof {
                    assert(spec_sendable(qs[i as int], elig));
                    assert(spec_selected(qs, old(rate).last_limited_send, now) == Some(
                        i as int,
                    ));
                }
                let popped = state.dequeue_at(i);
                proof {
                    assert(spec_dequeue_result(qs[i as int]) == Some(
                        qs[i as int].msgs.last(),
                    ));
                    if popped is None {
                        assert(popped.deep_view() is None);
                        assert(false);
                    }
                }
                if is_rec {
                    rate.last_limited_send = now;
                }
                return (popped, delay);
            }
            proof {
                assert forall|k: int| 0 <= k < i as int + 1 && qs[k].recruitment
                    && qs[k].msgs.len() > 0 implies 0 <= k < i as int by {}
            }
        }
        i = i + 1;
    }
    (None, delay)
}

} // verus!
