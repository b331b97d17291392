//! The throttle that lets a bounded number of futures run at a time, in the
//! order in which they were created. The futures themselves are polled by
//! the caller; this module decides when each may start and keeps the queue.
use std::collections::VecDeque;
use vstd::prelude::*;

verus! {

broadcast use vstd::std_specs::vecdeque::group_vec_dequeue_axioms;

/// How many throttled futures may run at once.
pub const NUMBER_OF_CONCURRENT_FUTURES: usize = 1;

/// The sequences of the futures that run, and of those that wait, the one
/// that came first at the front.
pub struct ThrottlingFutureQueue {
    sequences_in_progress: Vec<usize>,
    waiting_sequences: VecDeque<usize>,
}

/// A sequence of numbers that strictly increases.
pub open spec fn strictly_increasing(s: Seq<usize>) -> bool {
    forall|i: int, j: int| 0 <= i < j < s.len() ==> s[i] < s[j]
}

impl ThrottlingFutureQueue {
    /// The sequences of the futures that run.
    pub closed spec fn in_progress(&self) -> Seq<usize> {
        self.sequences_in_progress@
    }

    /// The sequences of the futures that wait, the first to come in front.
    pub closed spec fn waiting(&self) -> Seq<usize> {
        self.waiting_sequences@
    }

    /// No more futures run than the throttle allows.
    pub open spec fn wf(&self) -> bool {
        self.in_progress().len() <= NUMBER_OF_CONCURRENT_FUTURES
    }

    /// The waiting sequences come in increasing order, no running sequence
    /// runs twice, and none both runs and waits.
    pub open spec fn fifo_ordered(&self) -> bool {
        &&& strictly_increasing(self.waiting())
        &&& self.in_progress().no_duplicates()
        &&& self.in_progress().disjoint(self.waiting())
    }

    /// No sequence waits twice, none runs twice, and none both runs and
    /// waits.
    pub open spec fn distinct(&self) -> bool {
        &&& self.waiting().no_duplicates()
        &&& self.in_progress().no_duplicates()
        &&& self.in_progress().disjoint(self.waiting())
    }

    /// Every sequence in the queue, running or waiting.
    pub open spec fn sequences(&self) -> Set<usize> {
        self.in_progress().to_set().union(self.waiting().to_set())
    }

    /// Whether the future with `sequence` may start now: fewer futures run
    /// than the throttle allows and `sequence` is the first that waits.
    pub open spec fn may_start(&self, sequence: usize) -> bool {
        &&& self.in_progress().len() < NUMBER_OF_CONCURRENT_FUTURES
        &&& self.waiting().len() > 0
        &&& self.waiting()[0] == sequence
    }

    /// The number of futures that run.
    pub fn in_progress_len(&self) -> (n: usize)
        ensures
            n == self.in_progress().len(),
    {
        self.sequences_in_progress.len()
    }

    /// The number of futures that wait.
    pub fn waiting_len(&self) -> (n: usize)
        ensures
            n == self.waiting().len(),
    {
        self.waiting_sequences.len()
    }
}

impl Default for ThrottlingFutureQueue {
    /// An empty queue.
    fn default() -> (q: Self)
        ensures
            q.wf(),
            q.fifo_ordered(),
            q.distinct(),
            q.in_progress() == Seq::<usize>::empty(),
            q.waiting() == Seq::<usize>::empty(),
    {
        let q = Self {
            sequences_in_progress: Vec::with_capacity(NUMBER_OF_CONCURRENT_FUTURES),
            waiting_sequences: VecDeque::new(),
        };
        q
    }
}

/// The throttle: the sequence that the next future gets, and the queue.
pub struct Throttle {
    pub next_sequence: usize,
    pub queue: ThrottlingFutureQueue,
}

/// The sequence after `n`; the counter wraps around as an atomic add does.
pub open spec fn sequence_after(n: usize) -> usize {
    if n == usize::MAX {
        0
    } else {
        (n + 1) as usize
    }
}

impl Throttle {
    pub open spec fn wf(&self) -> bool {
        self.queue.wf()
    }

    /// Every sequence in the queue was handed out before `next_sequence`,
    /// and the queue is in order: so far, no sequence was handed out twice.
    pub open spec fn fresh(&self) -> bool {
        &&& self.queue.fifo_ordered()
        &&& forall|s: usize| #[trigger] self.queue.sequences().contains(s) ==> s < self.next_sequence
    }

    /// Hands out the next sequence and puts it at the end of the queue.
    pub fn register(&mut self) -> (sequence: usize)
        requires
            old(self).wf(),
        ensures
            final(self).wf(),
            sequence == old(self).next_sequence,
            final(self).next_sequence == sequence_after(old(self).next_sequence),
            final(self).queue.waiting() == old(self).queue.waiting().push(sequence),
            final(self).queue.in_progress() == old(self).queue.in_progress(),
            old(self).fresh() && old(self).next_sequence < usize::MAX ==> final(self).fresh(),
            old(self).queue.distinct() && !old(self).queue.sequences().contains(
                old(self).next_sequence,
            ) ==> final(self).queue.distinct(),
    {
        let sequence = self.next_sequence;
        self.next_sequence = self.next_sequence.wrapping_add(1);
        let ghost w0 = self.queue.waiting_sequences@;
        let ghost old_self = *self;
        self.queue.waiting_sequences.push_back(sequence);
        proof {
            let w1 = self.queue.waiting_sequences@;
            assert(w1 =~= w0.push(sequence));
            if old_self.queue.distinct() && !old_self.queue.sequences().contains(sequence) {
                let p0 = old_self.queue.in_progress();
                assert(!w0.contains(sequence)) by {
                    if w0.contains(sequence) {
                        let j = choose|j: int| 0 <= j < w0.len() && w0[j] == sequence;
                        assert(old_self.queue.waiting().to_set().contains(sequence));
                    }
                }
                assert(!p0.contains(sequence)) by {
                    if p0.contains(sequence) {
                        assert(old_self.queue.in_progress().to_set().contains(sequence));
                    }
                }
                assert forall|a: int, b: int| 0 <= a < b < w1.len() implies w1[a] != w1[b] by {
                    if b == w0.len() {
                        assert(w1[a] == w0[a]);
                    }
                }
                assert forall|i: int| 0 <= i < p0.len() implies !w1.contains(#[trigger] p0[i]) by {
                    if w1.contains(p0[i]) {
                        let j = choose|j: int| 0 <= j < w1.len() && w1[j] == p0[i];
                        if j < w0.len() {
                            assert(w0[j] == p0[i]);
                            assert(w0.contains(p0[i]));
                        }
                    }
                }
            }
            if old_self.queue.fifo_ordered() && sequence < usize::MAX && (forall|s: usize|
                #[trigger] old_self.queue.sequences().contains(s) ==> s < sequence) {
                assert forall|i: int| 0 <= i < w0.len() implies w0[i] < sequence by {
                    assert(old_self.queue.waiting().to_set().contains(w0[i]));
                    assert(old_self.queue.sequences().contains(w0[i]));
                }
                assert forall|i: int| 0 <= i < self.queue.in_progress().len() implies !w1.contains(
                    #[trigger] self.queue.in_progress()[i],
                ) by {
                    let x = self.queue.in_progress()[i];
                    assert(old_self.queue.in_progress().to_set().contains(x));
                    assert(old_self.queue.sequences().contains(x));
                    assert(!w0.contains(x));
                    if w1.contains(x) {
                        let j = choose|j: int| 0 <= j < w1.len() && w1[j] == x;
                        if j < w0.len() {
                            assert(w0[j] == x);
                        }
                    }
                }
                assert forall|s: usize| #[trigger] self.queue.sequences().contains(s) implies s
                    < self.next_sequence by {
                    if self.queue.waiting().to_set().contains(s) {
                        let j = choose|j: int| 0 <= j < w1.len() && w1[j] == s;
                        if j < w0.len() {
                            assert(w0[j] == s);
                        }
                    } else {
                        assert(old_self.queue.in_progress().to_set().contains(s));
                        assert(old_self.queue.sequences().contains(s));
                    }
                }
            }
        }
        sequence
    }
}

impl Default for Throttle {
    /// A throttle whose first future gets sequence 0, with an empty queue.
    fn default() -> (t: Self)
        ensures
            t.wf(),
            t.fresh(),
            t.queue.distinct(),
            t.next_sequence == 0,
            t.queue.in_progress() == Seq::<usize>::empty(),
            t.queue.waiting() == Seq::<usize>::empty(),
    {
        let t = Self { next_sequence: 0, queue: ThrottlingFutureQueue::default() };
        proof {
            assert(t.queue.sequences() =~= Set::<usize>::empty());
        }
        t
    }
}

/// Law: progress. Whenever a slot is free, the first waiting future may
/// start, however many wait behind it; no other waiting future may.
pub proof fn law_first_waiting_starts_when_a_slot_is_free(q: ThrottlingFutureQueue, s: usize)
    requires
        q.in_progress().len() < NUMBER_OF_CONCURRENT_FUTURES,
        q.waiting().len() > 0,
    ensures
        q.may_start(q.waiting()[0]),
        q.may_start(s) <==> s == q.waiting()[0],
{
}

/// Law: no future may start while every slot is taken, or when none waits.
pub proof fn law_no_start_without_a_slot(q: ThrottlingFutureQueue, s: usize)
    requires
        q.in_progress().len() >= NUMBER_OF_CONCURRENT_FUTURES || q.waiting().len() == 0,
    ensures
        !q.may_start(s),
{
}

/// Law: a queue in first-come order holds no sequence twice.
pub proof fn law_fifo_ordered_is_distinct(q: ThrottlingFutureQueue)
    requires
        q.fifo_ordered(),
    ensures
        q.distinct(),
{
    assert forall|i: int, j: int| 0 <= i < j < q.waiting().len() implies q.waiting()[i]
        != q.waiting()[j] by {}
}

/// A future that waits for its turn in a throttle before it runs. The caller
/// polls the inner future once `begin_poll` says so, and calls `finish` when it is
/// ready.
pub struct ThrottlingFuture<F> {
    sequence: usize,
    processing: bool,
    future: F,
}

impl<F> ThrottlingFuture<F> {
    /// The sequence that the throttle handed to this future.
    pub closed spec fn spec_sequence(&self) -> usize {
        self.sequence
    }

    /// Whether this future has started to run.
    pub closed spec fn spec_processing(&self) -> bool {
        self.processing
    }

    /// The throttled future.
    pub closed spec fn inner(&self) -> F {
        self.future
    }

    /// Registers `future` with `throttle`: it gets the next sequence and
    /// waits at the end of the queue.
    pub fn new(future: F, throttle: &mut Throttle) -> (r: Self)
        requires
            old(throttle).wf(),
        ensures
            final(throttle).wf(),
            r.spec_sequence() == old(throttle).next_sequence,
            !r.spec_processing(),
            r.inner() == future,
            final(throttle).next_sequence == sequence_after(old(throttle).next_sequence),
            final(throttle).queue.waiting() == old(throttle).queue.waiting().push(
                r.spec_sequence(),
            ),
            final(throttle).queue.in_progress() == old(throttle).queue.in_progress(),
            old(throttle).fresh() && old(throttle).next_sequence < usize::MAX
                ==> final(throttle).fresh(),
            old(throttle).queue.distinct() && !old(throttle).queue.sequences().contains(
                old(throttle).next_sequence,
            ) ==> final(throttle).queue.distinct(),
    {
        let sequence = throttle.register();
        Self { sequence, processing: false, future }
    }

    /// The sequence that the throttle handed to this future.
    pub fn sequence(&self) -> (s: usize)
        ensures
            s == self.spec_sequence(),
    {
        self.sequence
    }

    /// Whether this future has started to run.
    pub fn processing(&self) -> (p: bool)
        ensures
            p == self.spec_processing(),
    {
        self.processing
    }

    /// The throttled future, for the caller to poll.
    pub fn future_mut(&mut self) -> (f: &mut F)
        ensures
            *f == old(self).inner(),
            final(self).inner() == *final(f),
            final(self).spec_sequence() == old(self).spec_sequence(),
            final(self).spec_processing() == old(self).spec_processing(),
    {
        &mut self.future
    }

    /// Whether this future may start: fewer futures run than the throttle
    /// allows, and this one is the first that waits.
    pub fn ready_to_start_polling(&self, queue: &ThrottlingFutureQueue) -> (r: bool)
        ensures
            r == queue.may_start(self.spec_sequence()),
            queue.in_progress().len() < NUMBER_OF_CONCURRENT_FUTURES && queue.waiting().len() > 0
                && queue.waiting()[0] == self.spec_sequence() ==> r,
    {
        let is_next = if queue.waiting_sequences.len() > 0 {
            queue.waiting_sequences[0] == self.sequence
        } else {
            false
        };
        let number_in_progress = queue.sequences_in_progress.len();
        number_in_progress < NUMBER_OF_CONCURRENT_FUTURES && is_next
    }

    /// The part of a poll that comes before the inner future is polled. A
    /// future that runs already goes on. One that waits starts if it may:
    /// it leaves the front of the queue and runs. Otherwise it keeps
    /// waiting, and the result is false: the caller reports "not ready".
    pub fn begin_poll(&mut self, queue: &mut ThrottlingFutureQueue) -> (poll_inner: bool)
        requires
            old(queue).wf(),
        ensures
            final(queue).wf(),
            final(self).spec_sequence() == old(self).spec_sequence(),
            final(self).inner() == old(self).inner(),
            poll_inner == (old(self).spec_processing() || old(queue).may_start(
                old(self).spec_sequence(),
            )),
            final(self).spec_processing() == poll_inner,
            if !old(self).spec_processing() && poll_inner {
                &&& final(queue).in_progress() == old(queue).in_progress().push(
                    old(self).spec_sequence(),
                )
                &&& final(queue).waiting() == old(queue).waiting().drop_first()
            } else {
                &&& final(queue).in_progress() == old(queue).in_progress()
                &&& final(queue).waiting() == old(queue).waiting()
            },
            old(queue).fifo_ordered() ==> final(queue).fifo_ordered(),
            old(queue).distinct() ==> final(queue).distinct(),
            final(queue).sequences() == old(queue).sequences(),
    {
        if self.processing {
            return true;
        }
        if !self.ready_to_start_polling(queue) {
            return false;
        }
        let ghost q0 = *queue;
        queue.sequences_in_progress.push(self.sequence);
        queue.waiting_sequences.pop_front();
        self.processing = true;
        proof {
            let p0 = q0.in_progress();
            let w0 = q0.waiting();
            let p1 = queue.in_progress();
            let w1 = queue.waiting();
            assert(p1 =~= p0.push(w0[0]));
            assert(w1 =~= w0.drop_first());
            assert(queue.sequences() =~= q0.sequences()) by {
                assert forall|s: usize| q0.sequences().contains(s) implies queue.sequences().contains(s) by {
                    if w0.to_set().contains(s) {
                        let j = choose|j: int| 0 <= j < w0.len() && w0[j] == s;
                        if j == 0 {
                            assert(p1[p1.len() - 1] == s);
                        } else {
                            assert(w1[j - 1] == s);
                        }
                    } else {
                        let j = choose|j: int| 0 <= j < p0.len() && p0[j] == s;
                        assert(p1[j] == s);
                    }
                }
                assert forall|s: usize| queue.sequences().contains(s) implies q0.sequences().contains(s) by {
                    if p1.to_set().contains(s) {
                        let j = choose|j: int| 0 <= j < p1.len() && p1[j] == s;
                        if j < p0.len() {
                            assert(p0[j] == s);
                        } else {
                            assert(w0[0] == s);
                        }
                    } else {
                        let j = choose|j: int| 0 <= j < w1.len() && w1[j] == s;
                        assert(w0[j + 1] == s);
                    }
                }
            }
            if q0.distinct() {
                assert forall|i: int, j: int| 0 <= i < j < w1.len() implies w1[i] != w1[j] by {
                    assert(w0[i + 1] != w0[j + 1]);
                }
                assert forall|i: int, j: int| 0 <= i < j < p1.len() implies p1[i] != p1[j] by {
                    if j == p0.len() {
                        assert(!w0.contains(p0[i]));
                    }
                }
                assert forall|i: int| 0 <= i < p1.len() implies !w1.contains(#[trigger] p1[i]) by {
                    if w1.contains(p1[i]) {
                        let j = choose|j: int| 0 <= j < w1.len() && w1[j] == p1[i];
                        assert(w0[j + 1] == p1[i]);
                        if i < p0.len() {
                            assert(w0.contains(p0[i]));
                        } else {
                            assert(w0[0] != w0[j + 1]);
                        }
                    }
                }
            }
            if q0.fifo_ordered() {
                assert forall|i: int, j: int| 0 <= i < j < w1.len() implies w1[i] < w1[j] by {
                    assert(w0[i + 1] < w0[j + 1]);
                }
                assert forall|i: int, j: int| 0 <= i < j < p1.len() implies p1[i] != p1[j] by {
                    if j == p0.len() {
                        assert(!w0.contains(p0[i]));
                    }
                }
                assert forall|i: int| 0 <= i < p1.len() implies !w1.contains(#[trigger] p1[i]) by {
                    if w1.contains(p1[i]) {
                        let j = choose|j: int| 0 <= j < w1.len() && w1[j] == p1[i];
                        assert(w0[j + 1] == p1[i]);
                        if i < p0.len() {
                            assert(w0.contains(p0[i]));
                        } else {
                            assert(w0[0] < w0[j + 1]);
                        }
                    }
                }
            }
        }
        true
    }

    /// The inner future is ready: this future no longer runs. Its sequence
    /// leaves the running list, at its first position. The result tells
    /// whether it was found there.
    pub fn finish(&self, queue: &mut ThrottlingFutureQueue) -> (found: bool)
        requires
            old(queue).wf(),
        ensures
            final(queue).wf(),
            final(queue).waiting() == old(queue).waiting(),
            found == old(queue).in_progress().contains(self.spec_sequence()),
            found ==> exists|i: int|
                0 <= i < old(queue).in_progress().len() && old(queue).in_progress()[i]
                    == self.spec_sequence() && (forall|j: int|
                    0 <= j < i ==> old(queue).in_progress()[j] != self.spec_sequence())
                    && final(queue).in_progress() == old(queue).in_progress().remove(i),
            !found ==> final(queue).in_progress() == old(queue).in_progress(),
            old(queue).fifo_ordered() ==> final(queue).fifo_ordered(),
            old(queue).distinct() ==> final(queue).distinct(),
            final(queue).sequences().subset_of(old(queue).sequences()),
    {
        let mut i: usize = 0;
        let n = queue.sequences_in_progress.len();
        while i < n
            invariant
                *queue == *old(queue),
                queue.wf(),
                n == queue.sequences_in_progress.len(),
                0 <= i <= n,
                forall|j: int| 0 <= j < i ==> queue.sequences_in_progress@[j] != self.sequence,
            decreases n - i,
        {
            if queue.sequences_in_progress[i] == self.sequence {
                let ghost q0 = *queue;
                queue.sequences_in_progress.remove(i);
                proof {
                    let p0 = q0.in_progress();
                    let p1 = queue.in_progress();
                    assert(p0.contains(self.sequence));
                    assert forall|s: usize| queue.sequences().contains(s) implies q0.sequences().contains(s) by {
                        if p1.to_set().contains(s) {
                            let j = choose|j: int| 0 <= j < p1.len() && p1[j] == s;
                            if j < i {
                                assert(p0[j] == s);
                            } else {
                                assert(p0[j + 1] == s);
                            }
                        }
                    }
                    if q0.fifo_ordered() || q0.distinct() {
                        assert forall|a: int, b: int| 0 <= a < b < p1.len() implies p1[a] != p1[b] by {
                            let a0 = if a < i { a } else { a + 1 };
                            let b0 = if b < i { b } else { b + 1 };
                            assert(p1[a] == p0[a0]);
                            assert(p1[b] == p0[b0]);
                        }
                        assert forall|a: int| 0 <= a < p1.len() implies !queue.waiting().contains(
                            #[trigger] p1[a],
                        ) by {
                            let a0 = if a < i { a } else { a + 1 };
                            assert(p1[a] == p0[a0]);
                        }
                    }
                }
                return true;
            }
            i = i + 1;
        }
        false
    }
}

} // verus!
