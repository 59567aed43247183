//! Rate limiting a stream to one emission per timer tick, always carrying
//! the latest value forward and dropping superseded ones.

use vstd::prelude::*;

verus! {

/// One thing that can happen to a throttle: a new upstream value, or the
/// period timer firing.
pub enum ThrottleEvent<T> {
    Item(T),
    Tick,
}

/// The pending value after driving a throttle from `init` through `events`.
pub open spec fn pending_after<T>(init: Option<T>, events: Seq<ThrottleEvent<T>>) -> Option<T>
    decreases events.len(),
{
    if events.len() == 0 {
        init
    } else {
        match events.last() {
            ThrottleEvent::Item(v) => Some(v),
            ThrottleEvent::Tick => None,
        }
    }
}

/// Everything a throttle emits while driven from `init` through `events`,
/// in order: one value per tick that found something pending, nothing else.
pub open spec fn emitted_after<T>(init: Option<T>, events: Seq<ThrottleEvent<T>>) -> Seq<T>
    decreases events.len(),
{
    if events.len() == 0 {
        Seq::empty()
    } else {
        let earlier = emitted_after(init, events.drop_last());
        match events.last() {
            ThrottleEvent::Item(_) => earlier,
            ThrottleEvent::Tick => match pending_after(init, events.drop_last()) {
                Some(v) => earlier.push(v),
                None => earlier,
            },
        }
    }
}

/// The throttle's state: at most the one latest value awaiting the next
/// tick. Values are moved through, never copied, so intermediate values
/// superseded before a tick are simply dropped.
pub struct Throttle<T> {
    pending: Option<T>,
}

impl<T> View for Throttle<T> {
    type V = Option<T>;

    closed spec fn view(&self) -> Option<T> {
        self.pending
    }
}

impl<T> Throttle<T> {
    /// A throttle with nothing pending.
    pub fn new() -> (t: Throttle<T>)
        ensures
            t@ is None,
    {
        Throttle { pending: None }
    }

    /// Accepts an upstream value; it supersedes whatever was pending.
    pub fn offer(&mut self, item: T)
        ensures
            final(self)@ == Some(item),
    {
        self.pending = Some(item);
    }

    /// The period timer fired: forwards the latest pending value, if any,
    /// and clears it, so a value is never emitted twice and a tick with
    /// nothing new emits nothing.
    pub fn tick(&mut self) -> (out: Option<T>)
        ensures
            out == old(self)@,
            final(self)@ is None,
    {
        self.pending.take()
    }
}

/// Throttle coalescing: however many values arrive between two ticks, the
/// next tick emits exactly the last of them, and none of the superseded
/// intermediate values is ever observed downstream.
pub proof fn lemma_throttle_coalesces<T>(init: Option<T>, offers: Seq<T>)
    requires
        offers.len() > 0,
    ensures
        emitted_after(init, offers.map_values(|v: T| ThrottleEvent::Item(v))) == Seq::<T>::empty(),
        emitted_after(
            init,
            offers.map_values(|v: T| ThrottleEvent::Item(v)).push(ThrottleEvent::Tick),
        ) == seq![offers.last()],
    decreases offers.len(),
{
    let evs = offers.map_values(|v: T| ThrottleEvent::Item(v));
    assert(evs.last() == ThrottleEvent::Item(offers.last()));
    if offers.len() == 1 {
        assert(evs.drop_last().len() == 0);
        assert(emitted_after(init, evs.drop_last()) == Seq::<T>::empty());
        assert(emitted_after(init, evs) == Seq::<T>::empty());
    } else {
        lemma_throttle_coalesces(init, offers.drop_last());
        let shorter = offers.drop_last().map_values(|v: T| ThrottleEvent::Item(v));
        assert(evs.drop_last() =~= shorter);
        assert(emitted_after(init, evs) == emitted_after(init, shorter));
        assert(emitted_after(init, evs) == Seq::<T>::empty());
    }
    assert(pending_after(init, evs) == Some(offers.last()));
    let ticked = evs.push(ThrottleEvent::Tick);
    assert(ticked.drop_last() =~= evs);
    assert(ticked.last() == ThrottleEvent::<T>::Tick);
    assert(emitted_after(init, ticked) == emitted_after(init, evs).push(offers.last()));
    assert(emitted_after(init, ticked) =~= seq![offers.last()]);
}

} // verus!
