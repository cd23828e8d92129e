//! The outbound message queues.
//!
//! Three named queues exist for the life of the process. Each queue
//! dequeues most-recent-first: freshness is deliberately favoured over
//! fairness for bursty enqueues. An ephemeral queue discards everything
//! pending when a new message arrives.
use vstd::prelude::*;

use vstd::string::StringExecFns;
use crate::strutil::str_eq;

verus! {

/// One unit of outbound work, immutable once created.
pub struct Telegram {
    pub nation: String,
    pub tgid: String,
    pub tg_key: String,
    pub client_key: String,
}

#[verifier::ext_equal]
pub struct TelegramView {
    pub nation: Seq<char>,
    pub tgid: Seq<char>,
    pub tg_key: Seq<char>,
    pub client_key: Seq<char>,
}

impl View for Telegram {
    type V = TelegramView;

    open spec fn view(&self) -> TelegramView {
        TelegramView {
            nation: self.nation@,
            tgid: self.tgid@,
            tg_key: self.tg_key@,
            client_key: self.client_key@,
        }
    }
}

impl DeepView for Telegram {
    type V = TelegramView;

    open spec fn deep_view(&self) -> TelegramView {
        self.view()
    }
}

impl Telegram {
    pub fn new(nation: String, tgid: String, tg_key: String, client_key: String) -> (r:
        Telegram)
        ensures
            r@ == (TelegramView {
                nation: nation@,
                tgid: tgid@,
                tg_key: tg_key@,
                client_key: client_key@,
            }),
    {
        Telegram { nation, tgid, tg_key, client_key }
    }
}

#[verifier::ext_equal]
pub struct QueueView {
    pub msgs: Seq<TelegramView>,
    pub identifier: Seq<char>,
    pub ephemeral: bool,
    pub recruitment: bool,
}

/// What one enqueue does: an ephemeral queue keeps only the newcomer,
/// any other queue appends it.
pub open spec fn spec_enqueue(q: QueueView, t: TelegramView) -> QueueView {
    QueueView { msgs: if q.ephemeral { seq![t] } else { q.msgs.push(t) }, ..q }
}

/// The message a dequeue yields: the most recently enqueued one.
pub open spec fn spec_dequeue_result(q: QueueView) -> Option<TelegramView> {
    if q.msgs.len() == 0 {
        None
    } else {
        Some(q.msgs.last())
    }
}

/// The queue left behind by a dequeue.
pub open spec fn spec_dequeue_state(q: QueueView) -> QueueView {
    if q.msgs.len() == 0 {
        q
    } else {
        QueueView { msgs: q.msgs.drop_last(), ..q }
    }
}

/// A named, ordered collection of pending telegrams.
pub struct TelegramQueue {
    queue: Vec<Telegram>,
    identifier: String,
    ephemeral: bool,
    recruitment: bool,
}

impl View for TelegramQueue {
    type V = QueueView;

    closed spec fn view(&self) -> QueueView {
        QueueView {
            msgs: self.queue.deep_view(),
            identifier: self.identifier@,
            ephemeral: self.ephemeral,
            recruitment: self.recruitment,
        }
    }
}

impl TelegramQueue {
    pub fn new(identifier: String, ephemeral: bool, recruitment: bool) -> (r: TelegramQueue)
        ensures
            r@ == (QueueView {
                msgs: Seq::empty(),
                identifier: identifier@,
                ephemeral,
                recruitment,
            }),
    {
        let r = TelegramQueue { queue: Vec::new(), identifier, ephemeral, recruitment };
        proof {
            assert(r@.msgs =~= Seq::<TelegramView>::empty());
            assert(r@ =~~= (QueueView {
                msgs: Seq::empty(),
                identifier: r.identifier@,
                ephemeral: r.ephemeral,
                recruitment: r.recruitment,
            }));
        }
        r
    }

    /// Whether this queue belongs to the limited rate class.
    pub fn is_recruitment(&self) -> (r: bool)
        ensures
            r == self@.recruitment,
    {
        self.recruitment
    }

    pub fn enqueue_tg(&mut self, telegram: Telegram)
        ensures
            final(self)@ == spec_enqueue(old(self)@, telegram@),
    {
        if self.ephemeral {
            self.queue.clear();
        }
        self.queue.push(telegram);
        proof {
            assert(final(self)@.msgs =~= spec_enqueue(old(self)@, telegram@).msgs);
            assert(final(self)@ =~~= spec_enqueue(old(self)@, telegram@));
        }
    }

    pub fn dequeue_tg(&mut self) -> (r: Option<Telegram>)
        ensures
            final(self)@ == spec_dequeue_state(old(self)@),
            r.deep_view() == spec_dequeue_result(old(self)@),
    {
        let r = self.queue.pop();
        proof {
            assert(final(self)@.msgs =~= spec_dequeue_state(old(self)@).msgs);
            assert(final(self)@ =~~= spec_dequeue_state(old(self)@));
        }
        r
    }
}

/// Law: dequeue order is last-in-first-out. After enqueueing `a` then `b`
/// into a non-ephemeral queue, the next dequeue yields `b`, the one after
/// it `a`, and the queue is then as it started.
pub proof fn lemma_lifo(q: QueueView, a: TelegramView, b: TelegramView)
    requires
        !q.ephemeral,
    ensures
        spec_dequeue_result(spec_enqueue(spec_enqueue(q, a), b)) == Some(b),
        spec_dequeue_result(spec_dequeue_state(spec_enqueue(spec_enqueue(q, a), b)))
            == Some(a),
        spec_dequeue_state(
            spec_dequeue_state(spec_enqueue(spec_enqueue(q, a), b)),
        ).msgs == q.msgs,
{
    let q2 = spec_enqueue(spec_enqueue(q, a), b);
    assert(q2.msgs == q.msgs.push(a).push(b));
    assert(q2.msgs.last() == b);
    assert(q2.msgs.drop_last() =~= q.msgs.push(a));
    assert(q.msgs.push(a).last() == a);
    assert(q.msgs.push(a).drop_last() =~= q.msgs);
}

/// Law: an ephemeral queue holds only its newest message. After
/// enqueueing `a` then `b`, only `b` is pending.
pub proof fn lemma_ephemeral(q: QueueView, a: TelegramView, b: TelegramView)
    requires
        q.ephemeral,
    ensures
        spec_enqueue(spec_enqueue(q, a), b).msgs == seq![b],
{
    assert(spec_enqueue(spec_enqueue(q, a), b).msgs =~= seq![b]);
}

/// The first queue in `qs` that carries `name`, if any.
pub open spec fn spec_find_queue(qs: Seq<QueueView>, name: Seq<char>) -> Option<int>
    decreases qs.len(),
{
    if qs.len() == 0 {
        None
    } else if qs[0].identifier == name {
        Some(0int)
    } else {
        match spec_find_queue(qs.drop_first(), name) {
            Some(i) => Some(i + 1),
            None => None,
        }
    }
}

pub proof fn lemma_find_queue(qs: Seq<QueueView>, name: Seq<char>)
    ensures
        match spec_find_queue(qs, name) {
            Some(i) => 0 <= i < qs.len() && qs[i].identifier == name && forall|j: int|
                0 <= j < i ==> qs[j].identifier != name,
            None => forall|j: int| 0 <= j < qs.len() ==> qs[j].identifier != name,
        },
    decreases qs.len(),
{
    if qs.len() > 0 && qs[0].identifier != name {
        let rest = qs.drop_first();
        lemma_find_queue(rest, name);
        assert forall|j: int| 0 <= j < rest.len() implies rest[j] == qs[j + 1] by {}
        match spec_find_queue(rest, name) {
            Some(i) => {
                assert(qs[i + 1] == rest[i]);
                assert forall|j: int| 0 <= j < i + 1 implies qs[j].identifier != name by {
                    if j > 0 {
                        assert(rest[j - 1] == qs[j]);
                        assert(rest[j - 1].identifier != name);
                    }
                }
            },
            None => {
                assert forall|j: int| 0 <= j < qs.len() implies qs[j].identifier
                    != name by {
                    if j > 0 {
                        assert(rest[j - 1] == qs[j]);
                    }
                }
            },
        }
    }
}

/// The fixed queue set, mutated only under one exclusive lock owned by
/// the embedding process.
pub struct TelegramState {
    queues: Vec<TelegramQueue>,
}

impl View for TelegramState {
    type V = Seq<QueueView>;

    closed spec fn view(&self) -> Seq<QueueView> {
        self.queues.deep_view()
    }
}

impl DeepView for TelegramQueue {
    type V = QueueView;

    open spec fn deep_view(&self) -> QueueView {
        self.view()
    }
}

/// The three queues of the process, in dispatch priority order.
pub open spec fn spec_initial_queues() -> Seq<QueueView> {
    seq![
        QueueView {
            msgs: Seq::empty(),
            identifier: "recruit-permanent"@,
            ephemeral: false,
            recruitment: true,
        },
        QueueView {
            msgs: Seq::empty(),
            identifier: "recruit-ephemeral"@,
            ephemeral: true,
            recruitment: true,
        },
        QueueView {
            msgs: Seq::empty(),
            identifier: "regional"@,
            ephemeral: false,
            recruitment: false,
        },
    ]
}

impl TelegramState {
    pub fn new() -> (r: TelegramState)
        ensures
            r@ == spec_initial_queues(),
    {
        let mut queues: Vec<TelegramQueue> = Vec::new();
        queues.push(TelegramQueue::new(String::from_str("recruit-permanent"), false, true));
        queues.push(TelegramQueue::new(String::from_str("recruit-ephemeral"), true, true));
        queues.push(TelegramQueue::new(String::from_str("regional"), false, false));
        let r = TelegramState { queues };
        proof {
            assert(r@ =~~= spec_initial_queues());
        }
        r
    }

    pub fn queue_count(&self) -> (n: usize)
        ensures
            n == self@.len(),
    {
        self.queues.len()
    }

    pub fn queue_is_recruitment(&self, i: usize) -> (r: bool)
        requires
            i < self@.len(),
        ensures
            r == self@[i as int].recruitment,
    {
        self.queues[i].is_recruitment()
    }

    pub fn queue_pending(&self, i: usize) -> (n: usize)
        requires
            i < self@.len(),
        ensures
            n == self@[i as int].msgs.len(),
    {
        let q = &self.queues[i];
        proof {
            assert(q@ == self@[i as int]);
        }
        q.queue_len()
    }

    /// Pops the most recent message of queue `i`, leaving the others as
    /// they were.
    pub fn dequeue_at(&mut self, i: usize) -> (r: Option<Telegram>)
        requires
            i < old(self)@.len(),
        ensures
            final(self)@ == old(self)@.update(
                i as int,
                spec_dequeue_state(old(self)@[i as int]),
            ),
            r.deep_view() == spec_dequeue_result(old(self)@[i as int]),
    {
        let q = &mut self.queues[i];
        let r = q.dequeue_tg();
        proof {
            assert(final(self)@ =~~= old(self)@.update(
                i as int,
                spec_dequeue_state(old(self)@[i as int]),
            ));
        }
        r
    }

    /// Appends the telegram to the first queue named `queue_name` and
    /// reports whether such a queue exists; an unknown name changes
    /// nothing. A successful enqueue is the moment the embedding process
    /// signals the dispatcher to rescan.
    pub fn add_to_queue(&mut self, queue_name: &str, telegram: Telegram) -> (r: bool)
        ensures
            match spec_find_queue(old(self)@, queue_name@) {
                Some(i) => r && final(self)@ == old(self)@.update(
                    i,
                    spec_enqueue(old(self)@[i], telegram@),
                ),
                None => !r && final(self)@ == old(self)@,
            },
    {
        proof {
            lemma_find_queue(old(self)@, queue_name@);
        }
        let n = self.queues.len();
        let mut i: usize = 0;
        while i < n
            invariant
                n == self@.len(),
                i <= n,
                self@ == old(self)@,
                forall|j: int| 0 <= j < i ==> self@[j].identifier != queue_name@,
                match spec_find_queue(old(self)@, queue_name@) {
                    Some(k) => 0 <= k < n && old(self)@[k].identifier == queue_name@
                        && forall|j: int| 0 <= j < k ==> old(self)@[j].identifier
                        != queue_name@,
                    None => forall|j: int| 0 <= j < n ==> old(self)@[j].identifier
                        != queue_name@,
                },
            decreases n - i,
        {
            proof {
                assert(self@[i as int] == self.queues@[i as int]@);
            }
            let hit = str_eq(self.queues[i].identifier_str(), queue_name);
            if hit {
                proof {
                    assert(self@[i as int].identifier == queue_name@);
                    assert(spec_find_queue(old(self)@, queue_name@) is Some);
                    let k = spec_find_queue(old(self)@, queue_name@)->Some_0;
                    assert(k == i as int);
                }
                let q = &mut self.queues[i];
                q.enqueue_tg(telegram);
                proof {
                    assert(final(self)@ =~~= old(self)@.update(
                        i as int,
                        spec_enqueue(old(self)@[i as int], telegram@),
                    ));
                }
                return true;
            }
            i = i + 1;
        }
        false
    }
}

impl TelegramQueue {
    pub fn queue_len(&self) -> (n: usize)
        ensures
            n == self@.msgs.len(),
    {
        self.queue.len()
    }

    fn identifier_str(&self) -> (r: &str)
        ensures
            r@ == self@.identifier,
    {
        self.identifier.as_str()
    }
}

} // verus!
