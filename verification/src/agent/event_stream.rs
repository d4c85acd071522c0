//! The stream of a run's events: a queue from which they are taken one by one,
//! and listeners that are told of each of them.

use std::collections::VecDeque;
use vstd::prelude::*;

verus! {

/// A listener's place among the listeners of a stream.
#[derive(Debug, PartialEq, Eq, Structural)]
pub struct Subscription {
    listener: usize,
}

impl Subscription {
    /// The listener's number.
    pub closed spec fn number(self) -> nat {
        self.listener as nat
    }

    /// The listener's number.
    pub fn index(&self) -> (r: usize)
        ensures
            r == self.number(),
    {
        self.listener
    }
}

/// What the consumer of a stream gets.
#[derive(Debug, PartialEq, Eq)]
pub enum NextEvent<T> {
    /// An event.
    Ready(T),
    /// There is no event yet.
    Pending,
    /// There are no more events.
    Ended,
}

/// A stream of events with a result at its end.
#[derive(Debug)]
pub struct EventStream<T, R> {
    queue: VecDeque<T>,
    /// Whether each listener still listens.
    listeners: Vec<bool>,
    /// Whether the producer is gone.
    closed: bool,
    done: bool,
    result: Option<R>,
}

/// What a stream holds.
pub struct StreamState<T, R> {
    /// The events that nobody has taken yet.
    pub queue: Seq<T>,
    /// Whether each listener still listens.
    pub listeners: Seq<bool>,
    /// Whether there will be no more events.
    pub closed: bool,
    /// Whether the result is there.
    pub done: bool,
    pub result: Option<R>,
}

impl<T, R> View for EventStream<T, R> {
    type V = StreamState<T, R>;

    closed spec fn view(&self) -> StreamState<T, R> {
        StreamState {
            queue: self.queue@,
            listeners: self.listeners@,
            closed: self.closed,
            done: self.done,
            result: self.result,
        }
    }
}

/// The numbers of those who listen, in the order in which they came.
pub open spec fn listening(listeners: Seq<bool>) -> Seq<nat>
    decreases listeners.len(),
{
    if listeners.len() == 0 {
        Seq::empty()
    } else {
        let before = listening(listeners.drop_last());
        if listeners.last() {
            before.push((listeners.len() - 1) as nat)
        } else {
            before
        }
    }
}

/// The numbers in a list.
pub open spec fn numbers(list: Seq<usize>) -> Seq<nat> {
    list.map_values(|n: usize| n as nat)
}

/// A stream after a further event.
pub open spec fn after_push<T, R>(s: StreamState<T, R>, event: T) -> StreamState<T, R> {
    StreamState { queue: s.queue.push(event), ..s }
}

/// What the consumer of a stream gets.
pub open spec fn next_of<T, R>(s: StreamState<T, R>) -> NextEvent<T> {
    if s.queue.len() > 0 {
        NextEvent::Ready(s.queue[0])
    } else if s.closed {
        NextEvent::Ended
    } else {
        NextEvent::Pending
    }
}

/// A stream after its consumer got what there was.
pub open spec fn after_next<T, R>(s: StreamState<T, R>) -> StreamState<T, R> {
    StreamState {
        queue: if s.queue.len() > 0 {
            s.queue.drop_first()
        } else {
            s.queue
        },
        ..s
    }
}

/// A stream with a further listener.
pub open spec fn with_listener<T, R>(s: StreamState<T, R>) -> StreamState<T, R> {
    StreamState { listeners: s.listeners.push(true), ..s }
}

/// A stream without the listener `n`.
pub open spec fn without_listener<T, R>(s: StreamState<T, R>, n: nat) -> StreamState<T, R> {
    StreamState {
        listeners: if n < s.listeners.len() {
            s.listeners.update(n as int, false)
        } else {
            s.listeners
        },
        ..s
    }
}

/// A stream whose result is there.
pub open spec fn with_result<T, R>(s: StreamState<T, R>, result: R) -> StreamState<T, R> {
    StreamState { done: true, result: Some(result), ..s }
}

/// A stream without further events.
pub open spec fn without_more<T, R>(s: StreamState<T, R>) -> StreamState<T, R> {
    StreamState { closed: true, ..s }
}

impl<T, R> EventStream<T, R> {
    /// A stream without events and listeners.
    pub fn new() -> (r: Self)
        ensures
            r@ == (StreamState::<T, R> {
                queue: Seq::empty(),
                listeners: Seq::empty(),
                closed: false,
                done: false,
                result: None,
            }),
    {
        EventStream { queue: VecDeque::new(), listeners: Vec::new(), closed: false, done: false, result: None }
    }

    /// Adds a listener, who is told of every event from now on.
    pub fn subscribe(&mut self) -> (r: Subscription)
        ensures
            r.number() == old(self)@.listeners.len(),
            final(self)@ == (StreamState { listeners: old(self)@.listeners.push(true), ..old(self)@ }),
            final(self)@ == with_listener(old(self)@),
    {
        let listener = self.listeners.len();
        self.listeners.push(true);
        Subscription { listener }
    }

    /// Takes a listener away, who is told of no event any more.
    pub fn unsubscribe(&mut self, sub: Subscription)
        ensures
            final(self)@ == (StreamState {
                listeners: if sub.number() < old(self)@.listeners.len() {
                    old(self)@.listeners.update(sub.number() as int, false)
                } else {
                    old(self)@.listeners
                },
                ..old(self)@
            }),
            final(self)@ == without_listener(old(self)@, sub.number()),
    {
        if sub.listener < self.listeners.len() {
            self.listeners.set(sub.listener, false);
        }
    }

    /// Adds an event and returns the numbers of the listeners who are to be told
    /// of it.
    pub fn push(&mut self, event: T) -> (r: Vec<usize>)
        ensures
            numbers(r@) == listening(old(self)@.listeners),
            final(self)@ == after_push(old(self)@, event),
    {
        let mut told: Vec<usize> = Vec::new();
        let mut i: usize = 0;
        assert(numbers(told@) =~= listening(self.listeners@.take(0)));
        while i < self.listeners.len()
            invariant
                i <= self.listeners.len(),
                numbers(told@) == listening(self.listeners@.take(i as int)),
            decreases self.listeners.len() - i,
        {
            let ghost before = told@;
            assert(self.listeners@.take(i + 1).drop_last() =~= self.listeners@.take(i as int));
            if self.listeners[i] {
                told.push(i);
                assert(numbers(told@) =~= numbers(before).push(i as nat));
            }
            i = i + 1;
        }
        assert(self.listeners@.take(self.listeners@.len() as int) =~= self.listeners@);
        self.queue.push_back(event);
        told
    }

    /// Sets the result.
    pub fn end(&mut self, result: R)
        ensures
            final(self)@ == (StreamState { done: true, result: Some(result), ..old(self)@ }),
            final(self)@ == with_result(old(self)@, result),
    {
        self.result = Some(result);
        self.done = true;
    }

    /// Takes note that there will be no more events.
    pub fn close(&mut self)
        ensures
            final(self)@ == (StreamState { closed: true, ..old(self)@ }),
            final(self)@ == without_more(old(self)@),
    {
        self.closed = true;
    }

    /// Takes the oldest event.
    pub fn next(&mut self) -> (r: NextEvent<T>)
        ensures
            r == next_of(old(self)@),
            final(self)@ == after_next(old(self)@),
    {
        let ghost before = self.queue@;
        match self.queue.pop_front() {
            Some(e) => {
                assert(self.queue@ =~= before.drop_first());
                NextEvent::Ready(e)
            },
            None => if self.closed {
                NextEvent::Ended
            } else {
                NextEvent::Pending
            },
        }
    }

    /// Whether the result is there.
    pub fn is_done(&self) -> (r: bool)
        ensures
            r == self@.done,
    {
        self.done
    }

    /// The result, once it is there.
    pub fn result(&self) -> (r: Option<&R>)
        ensures
            r == match self@.result {
                Some(x) => Some(&x),
                None => None,
            },
    {
        match &self.result {
            Some(x) => Some(x),
            None => None,
        }
    }
}

/// A stream after further events.
pub open spec fn after_pushes<T, R>(s: StreamState<T, R>, events: Seq<T>) -> StreamState<T, R>
    decreases events.len(),
{
    if events.len() == 0 {
        s
    } else {
        after_push(after_pushes(s, events.drop_last()), events.last())
    }
}

/// What the consumer of a stream gets, asking `n` times.
pub open spec fn taken<T, R>(s: StreamState<T, R>, n: nat) -> Seq<NextEvent<T>>
    decreases n,
{
    if n == 0 {
        Seq::empty()
    } else {
        seq![next_of(s)] + taken(after_next(s), (n - 1) as nat)
    }
}

/// Events come out as they went in: who takes from a stream gets those that were
/// there and then the new ones, each once and in their order.
pub proof fn lemma_events_in_their_order<T, R>(s: StreamState<T, R>, events: Seq<T>)
    ensures
        taken(after_pushes(s, events), s.queue.len() + events.len()) == (s.queue + events).map_values(
            |e: T| NextEvent::Ready(e),
        ),
{
    let after = after_pushes(s, events);
    lemma_queue_grows(s, events);
    lemma_queue_is_taken(after, after.queue.len());
}

proof fn lemma_queue_grows<T, R>(s: StreamState<T, R>, events: Seq<T>)
    ensures
        after_pushes(s, events).queue == s.queue + events,
    decreases events.len(),
{
    if events.len() > 0 {
        lemma_queue_grows(s, events.drop_last());
        assert(after_pushes(s, events).queue =~= s.queue + events);
    } else {
        assert(s.queue + events =~= s.queue);
    }
}

proof fn lemma_queue_is_taken<T, R>(s: StreamState<T, R>, n: nat)
    requires
        n == s.queue.len(),
    ensures
        taken(s, n) == s.queue.map_values(|e: T| NextEvent::Ready(e)),
    decreases n,
{
    if n > 0 {
        lemma_queue_is_taken(after_next(s), (n - 1) as nat);
    }
    assert(taken(s, n) =~= s.queue.map_values(|e: T| NextEvent::Ready(e)));
}

/// A listener is told of an event exactly if the listener listens.
pub proof fn lemma_who_is_told(listeners: Seq<bool>, n: nat)
    ensures
        listening(listeners).contains(n) <==> n < listeners.len() && listeners[n as int],
    decreases listeners.len(),
{
    if listeners.len() > 0 {
        let rest = listeners.drop_last();
        lemma_who_is_told(rest, n);
        let before = listening(rest);
        let last = (listeners.len() - 1) as nat;
        if listeners.last() {
            let all = before.push(last);
            if before.contains(n) {
                let i = choose|i: int| 0 <= i < before.len() && before[i] == n;
                assert(all[i] == n);
            }
            if n == last {
                assert(all[all.len() - 1] == n);
            }
            if all.contains(n) && n != last {
                let i = choose|i: int| 0 <= i < all.len() && all[i] == n;
                assert(before[i] == n);
            }
        }
        if n < rest.len() {
            assert(rest[n as int] == listeners[n as int]);
        }
    }
}

/// Whoever takes from a stream without events is told to wait, or that there will be none any
/// more once the stream is closed; and taking and adding leave all else as it is.
pub proof fn lemma_empty_stream<T, R>(s: StreamState<T, R>, event: T)
    ensures
        s.queue.len() == 0 && !s.closed ==> next_of(s) is Pending,
        s.queue.len() == 0 && s.closed ==> next_of(s) is Ended,
        s.queue.len() == 0 ==> after_next(s) == s,
        after_next(s) == (StreamState { queue: after_next(s).queue, ..s }),
        after_push(s, event) == (StreamState { queue: after_push(s, event).queue, ..s }),
{
}

/// Listeners are told in the order in which they came, each once.
pub proof fn lemma_told_in_order(listeners: Seq<bool>, i: int, j: int)
    requires
        0 <= i < j < listening(listeners).len(),
    ensures
        listening(listeners)[i] < listening(listeners)[j] < listeners.len(),
    decreases listeners.len(),
{
    if listeners.len() > 0 {
        let rest = listeners.drop_last();
        let before = listening(rest);
        if j < before.len() {
            lemma_told_in_order(rest, i, j);
        } else {
            lemma_who_is_told(rest, before[i]);
            assert(before.contains(before[i]));
        }
    }
}

/// A new listener is told of every event from then on, and one that was taken away of none
/// any more; the others are told as before.
pub proof fn lemma_listeners_come_and_go<T, R>(s: StreamState<T, R>, n: nat, other: nat)
    ensures
        listening(with_listener(s).listeners).contains(s.listeners.len()),
        other < s.listeners.len() ==> (listening(with_listener(s).listeners).contains(other) <==> listening(
            s.listeners,
        ).contains(other)),
        !listening(without_listener(s, n).listeners).contains(n),
        other != n ==> (listening(without_listener(s, n).listeners).contains(other) <==> listening(
            s.listeners,
        ).contains(other)),
        with_listener(s) == (StreamState { listeners: with_listener(s).listeners, ..s }),
        without_listener(s, n) == (StreamState { listeners: without_listener(s, n).listeners, ..s }),
{
    lemma_who_is_told(with_listener(s).listeners, s.listeners.len());
    lemma_who_is_told(with_listener(s).listeners, other);
    lemma_who_is_told(s.listeners, other);
    lemma_who_is_told(without_listener(s, n).listeners, n);
    lemma_who_is_told(without_listener(s, n).listeners, other);
}

/// The result is the last one that was set, and neither it nor the end of the events takes an
/// event away.
pub proof fn lemma_result_is_there<T, R>(s: StreamState<T, R>, result: R)
    ensures
        with_result(s, result).done,
        with_result(s, result).result == Some(result),
        with_result(s, result).queue == s.queue,
        with_result(s, result).closed == s.closed,
        without_more(s).closed,
        without_more(s).queue == s.queue,
        without_more(s).result == s.result,
        s.queue.len() > 0 ==> next_of(without_more(s)) == NextEvent::Ready(s.queue[0]),
{
}

} // verus!
