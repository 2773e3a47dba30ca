//! An unbounded channel: any number of senders hand items to one receiver.
//!
//! The queue and the count of live senders sit behind one lock; the receiver
//! keeps a private buffer, refilled from the shared queue in one step, so that
//! most calls to `recv` take no lock at all. Every decision the two sides make
//! under the lock is a method of `Inner`, whose contracts pin it down exactly.
use std::collections::VecDeque;
use std::sync::{Arc, Condvar, Mutex, MutexGuard};
use vstd::multiset::Multiset;
use vstd::prelude::*;

verus! {

#[verifier::external_type_specification]
#[verifier::external_body]
#[verifier::reject_recursive_types(T)]
pub struct ExMutex<T: ?Sized>(Mutex<T>);

#[verifier::external_type_specification]
#[verifier::external_body]
#[verifier::reject_recursive_types(T)]
pub struct ExMutexGuard<'a, T: ?Sized + 'a>(MutexGuard<'a, T>);

#[verifier::external_type_specification]
#[verifier::external_body]
pub struct ExCondvar(Condvar);

/// Relies on `Mutex::new`: wraps a value in an unlocked mutex.
pub assume_specification<T>[ Mutex::<T>::new ](t: T) -> Mutex<T>;

/// Relies on `Condvar::new`: a condition variable with no waiter.
pub assume_specification[ Condvar::new ]() -> Condvar;

/// What the receiver does next, as decided under the lock.
pub enum Step<T> {
    /// Hand this item to the caller.
    Item(T),
    /// No sender is left and nothing is pending: the channel is closed for good.
    Closed,
    /// Nothing is pending but a sender is alive: block until woken.
    Wait,
}

/// The next step of a receiver whose pending items, oldest first, are
/// `pending`, while `senders` senders are alive.
pub open spec fn next_step<T>(pending: Seq<T>, senders: usize) -> Step<T> {
    if pending.len() > 0 {
        Step::Item(pending[0])
    } else if senders == 0 {
        Step::Closed
    } else {
        Step::Wait
    }
}

/// The pending items once that step has been taken.
pub open spec fn after_step<T>(pending: Seq<T>) -> Seq<T> {
    if pending.len() > 0 {
        pending.drop_first()
    } else {
        pending
    }
}

/// The state that senders and the receiver share behind the lock.
pub struct Inner<T> {
    /// Items sent and not yet moved to the receiver, oldest first.
    pub queue: VecDeque<T>,
    /// How many senders are alive.
    pub senders: usize,
}

impl<T> Inner<T> {
    /// The state of a fresh channel: nothing queued, one sender.
    pub fn new() -> (r: Inner<T>)
        ensures
            r.queue@ == Seq::<T>::empty(),
            r.senders == 1,
    {
        Inner { queue: VecDeque::new(), senders: 1 }
    }

    /// Appends a sent item at the tail of the queue.
    pub fn push(&mut self, t: T)
        ensures
            final(self).queue@ == old(self).queue@.push(t),
            final(self).senders == old(self).senders,
    {
        self.queue.push_back(t);
    }

    /// Counts one more live sender. The count cannot really reach
    /// `usize::MAX`: every sender holds a reference to the shared state, and
    /// `Arc` aborts long before its own count gets that far.
    pub fn add_sender(&mut self)
        ensures
            final(self).senders == if old(self).senders < usize::MAX {
                old(self).senders + 1
            } else {
                old(self).senders as int
            },
            final(self).queue@ == old(self).queue@,
    {
        if self.senders < usize::MAX {
            self.senders = self.senders + 1;
        }
    }

    /// Counts one sender fewer; returns whether none is left.
    pub fn remove_sender(&mut self) -> (last: bool)
        ensures
            final(self).senders == if old(self).senders > 0 {
                old(self).senders - 1
            } else {
                0
            },
            last == (final(self).senders == 0),
            final(self).queue@ == old(self).queue@,
        opens_invariants none
        no_unwind
    {
        if self.senders > 0 {
            self.senders = self.senders - 1;
        }
        self.senders == 0
    }

    /// Whether a receiver with an empty buffer has to block.
    pub fn must_wait(&self) -> (r: bool)
        ensures
            r == (self.queue@.len() == 0 && self.senders > 0),
    {
        self.queue.len() == 0 && self.senders > 0
    }

    /// The receiver's step once its own buffer is empty: take the oldest
    /// queued item and move all the others into `buffer` at once, or report
    /// that the channel is closed, or that it has to wait.
    pub fn take(&mut self, buffer: &mut VecDeque<T>) -> (r: Step<T>)
        requires
            old(buffer)@.len() == 0,
        ensures
            r == next_step(old(self).queue@, old(self).senders),
            final(buffer)@ == after_step(old(self).queue@),
            final(self).queue@ == if old(self).queue@.len() > 0 {
                Seq::<T>::empty()
            } else {
                old(self).queue@
            },
            final(self).senders == old(self).senders,
    {
        match self.queue.pop_front() {
            Some(t) => {
                if self.queue.len() > 0 {
                    std::mem::swap(buffer, &mut self.queue);
                }
                Step::Item(t)
            },
            None => {
                if self.senders == 0 {
                    Step::Closed
                } else {
                    Step::Wait
                }
            },
        }
    }
}

/// The state that the handles of one channel share: the lock over `Inner`
/// and the condition variable that wakes the receiver.
#[verifier::reject_recursive_types(T)]
pub struct Shared<T> {
    inner: Mutex<Inner<T>>,
    available: Condvar,
}

/// Relies on `Mutex::lock`: blocks until the lock is held. A lock poisoned by
/// a panicking holder still hands out its data.
#[verifier::external_body]
fn lock<T>(m: &Mutex<Inner<T>>) -> MutexGuard<'_, Inner<T>>
    opens_invariants none
    no_unwind
{
    match m.lock() {
        Ok(g) => g,
        Err(e) => e.into_inner(),
    }
}

/// Relies on `MutexGuard`'s `DerefMut`: the data that the held lock guards.
#[verifier::external_body]
fn guarded<'a, 'b, T>(g: &'a mut MutexGuard<'b, Inner<T>>) -> &'a mut Inner<T>
    opens_invariants none
    no_unwind
{
    &mut **g
}

/// Relies on `Condvar::wait_while`: releases the lock while parked and
/// returns holding it again once `must_wait` is false of the guarded state.
#[verifier::external_body]
fn wait_ready<'a, T>(c: &Condvar, g: MutexGuard<'a, Inner<T>>) -> MutexGuard<'a, Inner<T>> {
    match c.wait_while(g, |inner| inner.must_wait()) {
        Ok(g) => g,
        Err(e) => e.into_inner(),
    }
}

/// Relies on `Condvar::notify_one`: wakes one thread parked on it, if any.
#[verifier::external_body]
fn notify_one(c: &Condvar)
    opens_invariants none
    no_unwind
{
    c.notify_one()
}

/// Creates a channel and returns its one sender and its receiver.
pub fn channel<T>() -> (r: (Sender<T>, Receiver<T>))
    ensures
        r.0.state() == r.1.state(),
        r.1.buffered() == Seq::<T>::empty(),
{
    let inner = Inner::new();
    let shared = Arc::new(Shared { inner: Mutex::new(inner), available: Condvar::new() });
    (Sender { shared: Arc::clone(&shared) }, Receiver { shared, buffer: VecDeque::new() })
}

/// A handle that sends items into a channel; clone it for more senders.
#[verifier::reject_recursive_types(T)]
pub struct Sender<T> {
    shared: Arc<Shared<T>>,
}

impl<T> Sender<T> {
    /// The shared state that this sender sends into.
    pub closed spec fn state(&self) -> Arc<Shared<T>> {
        self.shared
    }
}

impl<T> Clone for Sender<T> {
    fn clone(&self) -> (r: Self)
        ensures
            r.state() == self.state(),
    {
        {
            let mut g = lock(&self.shared.inner);
            guarded(&mut g).add_sender();
        }
        Sender { shared: Arc::clone(&self.shared) }
    }
}

impl<T> Drop for Sender<T> {
    fn drop(&mut self)
        ensures
            final(self).state() == old(self).state(),
        opens_invariants none
        no_unwind
    {
        let last = {
            let mut g = lock(&self.shared.inner);
            guarded(&mut g).remove_sender()
        };
        if last {
            notify_one(&self.shared.available);
        }
    }
}

impl<T> Sender<T> {
    /// Queues `t` for the receiver. Never blocks and never fails, whether or
    /// not the receiver is still there.
    pub fn send(&mut self, t: T)
        ensures
            final(self).state() == old(self).state(),
    {
        {
            let mut g = lock(&self.shared.inner);
            guarded(&mut g).push(t);
        }
        notify_one(&self.shared.available);
    }
}

/// The one handle that receives the items of a channel.
#[verifier::reject_recursive_types(T)]
pub struct Receiver<T> {
    shared: Arc<Shared<T>>,
    buffer: VecDeque<T>,
}

impl<T> Receiver<T> {
    /// The shared state that this receiver takes from.
    pub closed spec fn state(&self) -> Arc<Shared<T>> {
        self.shared
    }

    /// Items already taken from the shared queue and not yet handed out.
    pub closed spec fn buffered(&self) -> Seq<T> {
        self.buffer@
    }

    /// Returns the oldest pending item, blocking while nothing is pending and
    /// a sender is alive; returns `None` once every sender is gone and every
    /// item has been handed out.
    pub fn recv(&mut self) -> (r: Option<T>)
        ensures
            old(self).buffered().len() > 0 ==> r == Some(old(self).buffered()[0])
                && final(self).buffered() == old(self).buffered().drop_first(),
            r is None ==> final(self).buffered() == Seq::<T>::empty(),
            final(self).state() == old(self).state(),
    {
        if let Some(t) = self.buffer.pop_front() {
            return Some(t);
        }
        let g = lock(&self.shared.inner);
        let mut g = wait_ready(&self.shared.available, g);
        match guarded(&mut g).take(&mut self.buffer) {
            Step::Item(t) => Some(t),
            // `wait_ready` returns only once an item is queued or no sender is
            // left, so `take` never answers `Wait` here.
            Step::Closed | Step::Wait => None,
        }
    }

    /// The next item, as a pull sequence: the same as `recv`.
    pub fn next(&mut self) -> (r: Option<T>)
        ensures
            old(self).buffered().len() > 0 ==> r == Some(old(self).buffered()[0])
                && final(self).buffered() == old(self).buffered().drop_first(),
            r is None ==> final(self).buffered() == Seq::<T>::empty(),
            final(self).state() == old(self).state(),
    {
        self.recv()
    }
}

/// The queue after `items` are sent one after another, each by `Inner::push`,
/// onto `pending`.
pub open spec fn sent_after<T>(pending: Seq<T>, items: Seq<T>) -> Seq<T>
    decreases items.len(),
{
    if items.len() == 0 {
        pending
    } else {
        sent_after(pending.push(items[0]), items.drop_first())
    }
}

/// The first `n` steps of a receiver that starts with `pending` while
/// `senders` senders stay alive and nothing more is sent.
pub open spec fn steps<T>(pending: Seq<T>, senders: usize, n: nat) -> Seq<Step<T>>
    decreases n,
{
    if n == 0 {
        Seq::empty()
    } else {
        seq![next_step(pending, senders)] + steps(after_step(pending), senders, (n - 1) as nat)
    }
}

/// Each item, handed out in turn.
pub open spec fn items_of<T>(items: Seq<T>) -> Seq<Step<T>> {
    items.map_values(|t: T| Step::Item(t))
}

/// The items among some steps, in order.
pub open spec fn delivered<T>(s: Seq<Step<T>>) -> Seq<T>
    decreases s.len(),
{
    if s.len() == 0 {
        Seq::empty()
    } else {
        match s[0] {
            Step::Item(t) => seq![t] + delivered(s.drop_first()),
            _ => delivered(s.drop_first()),
        }
    }
}

/// All the items of several senders, counted with repetition.
pub open spec fn all_items<T>(parts: Seq<Seq<T>>) -> Multiset<T>
    decreases parts.len(),
{
    if parts.len() == 0 {
        Multiset::empty()
    } else {
        all_items(parts.drop_last()).add(parts.last().to_multiset())
    }
}

proof fn lemma_sent_after<T>(pending: Seq<T>, items: Seq<T>)
    ensures
        sent_after(pending, items) == pending + items,
    decreases items.len(),
{
    if items.len() > 0 {
        lemma_sent_after(pending.push(items[0]), items.drop_first());
        assert(pending.push(items[0]) + items.drop_first() =~= pending + items);
    }
}

proof fn lemma_steps_fifo<T>(pending: Seq<T>, senders: usize)
    ensures
        steps(pending, senders, pending.len()) == items_of(pending),
    decreases pending.len(),
{
    if pending.len() > 0 {
        lemma_steps_fifo(pending.drop_first(), senders);
        assert(steps(pending, senders, pending.len()) =~= items_of(pending));
    }
}

proof fn lemma_delivered_items<T>(items: Seq<T>)
    ensures
        delivered(items_of(items)) == items,
    decreases items.len(),
{
    if items.len() > 0 {
        lemma_delivered_items(items.drop_first());
        assert(items_of(items).drop_first() =~= items_of(items.drop_first()));
        assert(seq![items[0]] + items.drop_first() =~= items);
    }
}

/// Items sent one after another come out of the receiver in the order in
/// which they were sent, one per step.
pub proof fn lemma_order_preserved<T>(items: Seq<T>, senders: usize)
    ensures
        steps(sent_after(Seq::empty(), items), senders, items.len()) == items_of(items),
{
    lemma_sent_after(Seq::empty(), items);
    assert(Seq::<T>::empty() + items =~= items);
    lemma_steps_fifo(items, senders);
}

/// Once no sender is left and nothing is pending, every step reports that the
/// channel is closed.
pub proof fn lemma_closed_forever<T>(n: nat)
    ensures
        steps(Seq::<T>::empty(), 0, n) == Seq::new(n, |i: int| Step::<T>::Closed),
    decreases n,
{
    if n > 0 {
        lemma_closed_forever::<T>((n - 1) as nat);
        assert(steps(Seq::<T>::empty(), 0, n) =~= Seq::new(n, |i: int| Step::<T>::Closed));
    }
}

/// When every sender is gone after sending `items`, pulling from the
/// receiver yields exactly those items and then the end of the channel.
pub proof fn lemma_iteration_ends<T>(items: Seq<T>)
    ensures
        steps(sent_after(Seq::empty(), items), 0, items.len() + 1) == items_of(items).push(
            Step::Closed,
        ),
{
    lemma_sent_after(Seq::empty(), items);
    assert(Seq::<T>::empty() + items =~= items);
    lemma_steps_split(items, 0, items.len(), 1);
    lemma_steps_fifo(items, 0);
    assert(steps(Seq::<T>::empty(), 0, 0) =~= Seq::<Step<T>>::empty());
    assert(steps(Seq::<T>::empty(), 0, 1) =~= seq![Step::<T>::Closed]);
    assert(after_n(items, items.len()) =~= Seq::<T>::empty());
}

/// The pending items after `n` steps.
pub open spec fn after_n<T>(pending: Seq<T>, n: nat) -> Seq<T> {
    if n <= pending.len() {
        pending.subrange(n as int, pending.len() as int)
    } else {
        Seq::empty()
    }
}

proof fn lemma_steps_split<T>(pending: Seq<T>, senders: usize, n: nat, m: nat)
    requires
        n <= pending.len(),
    ensures
        steps(pending, senders, n + m) == steps(pending, senders, n) + steps(
            after_n(pending, n),
            senders,
            m,
        ),
    decreases n,
{
    if n == 0 {
        assert(after_n(pending, 0) =~= pending);
        assert(steps(pending, senders, 0) + steps(pending, senders, m) =~= steps(
            pending,
            senders,
            m,
        ));
    } else {
        lemma_steps_split(pending.drop_first(), senders, (n - 1) as nat, m);
        assert(after_n(pending.drop_first(), (n - 1) as nat) =~= after_n(pending, n));
        assert((n + m - 1) as nat == (n - 1) as nat + m);
        assert(steps(pending, senders, n + m) =~= steps(pending, senders, n) + steps(
            after_n(pending, n),
            senders,
            m,
        ));
    }
}

/// However the sends of several senders interleave on the lock, the receiver
/// gets every sent item exactly once: nothing lost, nothing repeated.
pub proof fn lemma_fan_in<T>(parts: Seq<Seq<T>>, interleaved: Seq<T>, senders: usize)
    requires
        interleaved.to_multiset() == all_items(parts),
    ensures
        delivered(
            steps(sent_after(Seq::empty(), interleaved), senders, interleaved.len()),
        ).to_multiset() == all_items(parts),
{
    lemma_order_preserved(interleaved, senders);
    lemma_delivered_items(interleaved);
}

} // verus!
