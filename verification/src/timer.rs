//! A delay on platforms where a thread sleeps through it: what the sleeping
//! thread and the task that waits for the delay share.

use vstd::prelude::*;

use crate::poll::Poll;

verus! {

/// The state of a delay, with wakers of type `W`.
#[derive(Debug)]
pub struct DelayState<W> {
    /// Whether the time is over.
    pub done: bool,
    /// Who waits for that.
    pub waker: Option<W>,
}

impl<W> DelayState<W> {
    /// What polling the delay does, and what comes of it.
    pub open spec fn polled(self, waker: W) -> (DelayState<W>, Poll<()>) {
        if self.done {
            (self, Poll::Ready(()))
        } else {
            (DelayState { done: false, waker: Some(waker) }, Poll::Pending)
        }
    }

    /// What the end of the time does, and who is to be woken.
    pub open spec fn fired(self) -> (DelayState<W>, Option<W>) {
        (DelayState { done: true, waker: None }, self.waker)
    }

    /// A delay whose time begins.
    pub fn new() -> (res: DelayState<W>)
        ensures
            !res.done,
            res.waker is None,
    {
        DelayState { done: false, waker: None }
    }

    /// Polls the delay: it is ready once the time is over. Until then the
    /// waker of the latest poll is kept.
    pub fn poll(&mut self, waker: W) -> (res: Poll<()>)
        ensures
            (*final(self), res) == old(self).polled(waker),
    {
        if self.done {
            Poll::Ready(())
        } else {
            self.waker = Some(waker);
            Poll::Pending
        }
    }

    /// Ends the delay, and hands out the waker of who waits for it.
    pub fn fire(&mut self) -> (res: Option<W>)
        ensures
            (*final(self), res) == old(self).fired(),
    {
        self.done = true;
        self.waker.take()
    }
}

// ── Laws ─────────────────────────────────────────────────────────────────────

/// No wake-up is lost: who polls a delay and finds it pending is woken when it
/// ends, unless somebody polled it later; and who polls it after that finds it
/// ready.
pub proof fn lemma_delay_wakes_who_waits<W>(delay: DelayState<W>, waiting: W, later: W)
    requires
        delay.polled(waiting).1 is Pending,
    ensures
        delay.polled(waiting).0.fired().1 == Some(waiting),
        delay.polled(waiting).0.fired().0.polled(later).1 is Ready,
{
}

/// A delay that has ended stays ended.
pub proof fn lemma_delay_stays_over<W>(delay: DelayState<W>, waker: W)
    requires
        delay.done,
    ensures
        delay.polled(waker).0.done,
        delay.fired().0.done,
        delay.polled(waker).1 is Ready,
{
}

/// A delay is ready exactly once its time is over. Until then it keeps the
/// waker of the latest poll and no other, whoever polled before.
pub proof fn lemma_delay_keeps_the_latest_waker<W>(delay: DelayState<W>, waker: W)
    ensures
        delay.polled(waker).1 is Ready <==> delay.done,
        delay.done ==> delay.polled(waker).0 == delay,
        !delay.done ==> !delay.polled(waker).0.done && delay.polled(waker).0.waker == Some(waker),
{
}

/// The end of the time hands out the waker that was kept, if any was, and keeps
/// none.
pub proof fn lemma_delay_hands_out_its_waker<W>(delay: DelayState<W>)
    ensures
        delay.fired().0.done,
        delay.fired().0.waker is None,
        delay.fired().1 == delay.waker,
{
}

} // verus!
