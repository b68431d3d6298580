use vstd::prelude::*;
use std::collections::VecDeque;

verus! {

/// What a consumer gets when it asks the queue for work.
#[derive(Debug)]
pub enum Pull<T> {
    /// The next unit of work, in the order it was queued.
    Work(T),
    /// Nothing is queued yet: block until something is pushed or the queue is
    /// cancelled, then ask again.
    Wait,
    /// The queue was cancelled: stop consuming.
    Finished,
}

/// The abstract state of a work queue.
pub struct QueueModel<T> {
    pub items: Seq<T>,
    pub cancelled: bool,
}

/// An operation on a work queue, as a sequence of them is replayed in proofs.
pub enum QueueOp<T> {
    Push(T),
    Take,
    Cancel,
}

/// The state after `x` is pushed: it joins the back of the line.
pub open spec fn pushed<T>(m: QueueModel<T>, x: T) -> QueueModel<T> {
    QueueModel { items: m.items.push(x), cancelled: m.cancelled }
}

/// The state after the cancellation signal.
pub open spec fn cancelled<T>(m: QueueModel<T>) -> QueueModel<T> {
    QueueModel { items: m.items, cancelled: true }
}

/// What a pull answers in state `m`: cancellation wins over queued work.
pub open spec fn pull_result<T>(m: QueueModel<T>) -> Pull<T> {
    if m.cancelled {
        Pull::Finished
    } else if m.items.len() == 0 {
        Pull::Wait
    } else {
        Pull::Work(m.items[0])
    }
}

/// The state after a pull in state `m`: only handing out work changes it.
pub open spec fn pulled<T>(m: QueueModel<T>) -> QueueModel<T> {
    if !m.cancelled && m.items.len() > 0 {
        QueueModel { items: m.items.drop_first(), cancelled: false }
    } else {
        m
    }
}

/// The state after one operation.
pub open spec fn step<T>(m: QueueModel<T>, op: QueueOp<T>) -> QueueModel<T> {
    match op {
        QueueOp::Push(x) => pushed(m, x),
        QueueOp::Take => pulled(m),
        QueueOp::Cancel => cancelled(m),
    }
}

/// The answers of the pulls among `ops`, in order, when they are run from `m`.
pub open spec fn pull_answers<T>(m: QueueModel<T>, ops: Seq<QueueOp<T>>) -> Seq<Pull<T>>
    decreases ops.len(),
{
    if ops.len() == 0 {
        Seq::empty()
    } else {
        let rest = pull_answers(step(m, ops[0]), ops.drop_first());
        match ops[0] {
            QueueOp::Take => seq![pull_result(m)] + rest,
            _ => rest,
        }
    }
}

/// Once the queue is cancelled, every pull that follows, whatever is pushed,
/// pulled or cancelled meanwhile, answers `Finished`: no consumer is handed
/// work or told to keep waiting.
pub proof fn lemma_cancel_finishes_every_pull<T>(m: QueueModel<T>, ops: Seq<QueueOp<T>>)
    requires
        m.cancelled,
    ensures
        forall|k: int|
            0 <= k < pull_answers(m, ops).len() ==> #[trigger] pull_answers(m, ops)[k]
                is Finished,
    decreases ops.len(),
{
    if ops.len() > 0 {
        let next = step(m, ops[0]);
        assert(next.cancelled);
        lemma_cancel_finishes_every_pull(next, ops.drop_first());
    }
}

/// `n` pulls in a row.
pub open spec fn takes<T>(n: nat) -> Seq<QueueOp<T>> {
    Seq::new(n, |_i: int| QueueOp::Take)
}

/// Until the queue is cancelled, pulls hand out the queued work one unit each,
/// in the order it was pushed.
pub proof fn lemma_pulls_follow_push_order<T>(m: QueueModel<T>, n: nat)
    requires
        !m.cancelled,
        n <= m.items.len(),
    ensures
        pull_answers(m, takes::<T>(n)) == Seq::new(n, |i: int| Pull::Work(m.items[i])),
    decreases n,
{
    if n > 0 {
        let next = pulled(m);
        assert(takes::<T>(n).drop_first() =~= takes::<T>((n - 1) as nat));
        lemma_pulls_follow_push_order(next, (n - 1) as nat);
        assert(pull_answers(m, takes::<T>(n)) == seq![pull_result(m)] + pull_answers(
            next,
            takes::<T>((n - 1) as nat),
        ));
        assert(seq![pull_result(m)] + Seq::new((n - 1) as nat, |i: int| Pull::Work(next.items[i]))
            =~= Seq::new(n, |i: int| Pull::Work(m.items[i])));
    } else {
        assert(pull_answers(m, takes::<T>(0)) =~= Seq::new(0, |i: int| Pull::Work(m.items[i])));
    }
}

/// A first-in first-out supply of work that consumers drain until it is
/// cancelled.
pub struct WorkQueue<T> {
    items: VecDeque<T>,
    cancelled: bool,
}

impl<T> View for WorkQueue<T> {
    type V = QueueModel<T>;

    closed spec fn view(&self) -> QueueModel<T> {
        QueueModel { items: self.items@, cancelled: self.cancelled }
    }
}

impl<T> WorkQueue<T> {
    /// An empty queue that has not been cancelled.
    pub fn new() -> (r: Self)
        ensures
            r@.items == Seq::<T>::empty(),
            !r@.cancelled,
    {
        WorkQueue { items: VecDeque::new(), cancelled: false }
    }

    /// Adds `item` at the back of the line.
    pub fn push(&mut self, item: T)
        ensures
            final(self)@ == pushed(old(self)@, item),
    {
        self.items.push_back(item);
    }

    /// Fires the cancellation signal; queued work is never handed out after it.
    pub fn cancel(&mut self)
        ensures
            final(self)@ == cancelled(old(self)@),
    {
        self.cancelled = true;
    }

    pub fn is_cancelled(&self) -> (r: bool)
        ensures
            r == self@.cancelled,
    {
        self.cancelled
    }

    /// Number of queued units of work.
    pub fn len(&self) -> (r: usize)
        ensures
            r == self@.items.len(),
    {
        self.items.len()
    }

    /// Answers a consumer: the oldest queued work, `Wait` when there is none,
    /// and `Finished` once the queue is cancelled.
    pub fn pull(&mut self) -> (r: Pull<T>)
        ensures
            r == pull_result(old(self)@),
            final(self)@ == pulled(old(self)@),
    {
        if self.cancelled {
            return Pull::Finished;
        }
        match self.items.pop_front() {
            Some(item) => {
                assert(old(self)@.items.drop_first() == self.items@);
                Pull::Work(item)
            },
            None => Pull::Wait,
        }
    }
}

} // verus!
