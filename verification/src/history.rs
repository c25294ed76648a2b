//! What a transport reports of one of its listeners over any series of calls,
//! with any number of other listeners beside it.

use libp2p_core::transport::ListenerId;
use vstd::prelude::*;

use crate::addr::SocketAddr;
use crate::listener::{
    in_order, lemma_closing_listener_winds_down, lemma_listener_reports_in_order, life,
    possible_life, removal_asked, tells_of_the_end, winding_down, ListenerEventView,
    ListenerInput, ListenerState, VisitView,
};
use crate::table::{
    by_id, has_listener, lemma_by_id, lemma_put, lemma_with_state, lemma_without_listener,
    listeners_wf, put, with_state, Listener,
};
use crate::transport::{
    about, lemma_poll_touches_only_what_it_reports, report, whole_poll, Outcomes,
    TransportEventView,
};

verus! {

/// A call of the transport that concerns its listeners.
pub enum TransportCall {
    /// A listener on `addr` is asked for.
    ListenOn { id: ListenerId, addr: SocketAddr },
    /// A listener is asked to be removed.
    RemoveListener { id: ListenerId },
    /// The transport is polled, and operations in flight come to `outcomes`.
    Poll(Outcomes),
}

/// What a call does to the listeners, and what it reports.
pub open spec fn called(listeners: Seq<Listener>, call: TransportCall) -> (
    Seq<Listener>,
    Option<TransportEventView>,
) {
    match call {
        TransportCall::ListenOn { id, addr } => (
            put(listeners, id, ListenerState::fresh(addr)),
            None,
        ),
        TransportCall::RemoveListener { id } => (
            if has_listener(listeners, id) {
                put(listeners, id, by_id(listeners)[id].removed())
            } else {
                listeners
            },
            None,
        ),
        TransportCall::Poll(outcomes) => whole_poll(listeners, 0, outcomes),
    }
}

/// What a series of calls does to the listeners, and everything that it
/// reports of the listener `id`, in order.
pub open spec fn history(
    listeners: Seq<Listener>,
    calls: Seq<TransportCall>,
    id: ListenerId,
) -> (Seq<Listener>, Seq<TransportEventView>)
    decreases calls.len(),
{
    if calls.len() == 0 {
        (listeners, seq![])
    } else {
        let (before, events) = history(listeners, calls.drop_last(), id);
        match called(before, calls.last()) {
            (after, Some(event)) if about(event) == id => (after, events.push(event)),
            (after, _) => (after, events),
        }
    }
}

/// The state of the listener `id`, if there is such a listener.
pub open spec fn state_of(listeners: Seq<Listener>, id: ListenerId) -> Option<ListenerState> {
    if by_id(listeners).dom().contains(id) {
        Some(by_id(listeners)[id])
    } else {
        None
    }
}

/// The events of a listener as the transport reports them.
pub open spec fn reports(id: ListenerId, events: Seq<ListenerEventView>) -> Seq<
    TransportEventView,
> {
    events.map_values(|event: ListenerEventView| report(id, event))
}

/// Whether the `k`-th call asks for a listener under `id`.
pub open spec fn asked_for_at(calls: Seq<TransportCall>, k: int, id: ListenerId) -> bool {
    0 <= k < calls.len() && (calls[k] matches TransportCall::ListenOn { id: other, .. } && other
        == id)
}

/// Whether one of the calls asks for the listener `id` to be removed.
pub open spec fn removal_called(calls: Seq<TransportCall>, id: ListenerId) -> bool {
    exists|k: int|
        0 <= k < calls.len() && (#[trigger] calls[k] matches TransportCall::RemoveListener {
            id: other,
        } && other == id)
}

/// Whether the `k`-th of the calls of a transport reports that the listener
/// `id` is closed.
pub open spec fn closed_at(
    listeners: Seq<Listener>,
    calls: Seq<TransportCall>,
    k: int,
    id: ListenerId,
) -> bool {
    &&& 0 <= k < calls.len()
    &&& called(history(listeners, calls.take(k), id).0, calls[k]).1
        matches Some(TransportEventView::ListenerClosed { listener_id, .. }) && listener_id == id
}

/// Whether the `k`-th of the calls of a transport asks for a listener under
/// `id` and no call behind it reports that this is closed.
pub open spec fn listening_since(
    listeners: Seq<Listener>,
    calls: Seq<TransportCall>,
    k: int,
    id: ListenerId,
) -> bool {
    &&& asked_for_at(calls, k, id)
    &&& forall|j: int| k < j < calls.len() ==> !#[trigger] closed_at(listeners, calls, j, id)
}

/// Whether a listener got from `start` to where it is, reporting `events`, by
/// things that can happen to a listener, its removal among them only if
/// `removal` is set.
spec fn lived(
    start: ListenerState,
    inputs: Seq<ListenerInput>,
    listeners: Seq<Listener>,
    id: ListenerId,
    events: Seq<TransportEventView>,
    removal: bool,
) -> bool {
    &&& possible_life(start, inputs)
    &&& removal_asked(inputs) ==> removal
    &&& life(start, inputs).0 == state_of(listeners, id)
    &&& reports(id, life(start, inputs).1) == events
}

/// One more thing that happens to a listener.
proof fn lemma_next_input(
    start: ListenerState,
    inputs: Seq<ListenerInput>,
    input: ListenerInput,
    id: ListenerId,
)
    requires
        possible_life(start, inputs),
        life(start, inputs).0 matches Some(state) && state.expects(input),
    ensures
        ({
            let (after, event) = life(start, inputs).0->0.fed(input);
            let longer = inputs.push(input);
            &&& possible_life(start, longer)
            &&& life(start, longer).0 == after
            &&& event matches Some(e) ==> life(start, longer).1 == life(start, inputs).1.push(e)
            &&& event matches Some(e) ==> reports(id, life(start, longer).1) == reports(
                id,
                life(start, inputs).1,
            ).push(report(id, e))
            &&& event is None ==> life(start, longer).1 == life(start, inputs).1
            &&& removal_asked(longer) ==> removal_asked(inputs) || input is Remove
        }),
{
    let longer = inputs.push(input);
    assert(longer.drop_last() =~= inputs);
    assert(longer.last() == input);
    assert(forall|k: int| 0 <= k < inputs.len() ==> longer[k] == inputs[k]);
    let (after, event) = life(start, inputs).0->0.fed(input);
    if let Some(e) = event {
        assert(reports(id, life(start, longer).1) =~= reports(id, life(start, inputs).1).push(
            report(id, e),
        ));
    }
}

/// Changing the state of one listener changes none with another identifier.
proof fn lemma_state_of_with_state(
    listeners: Seq<Listener>,
    i: int,
    state: ListenerState,
    id: ListenerId,
)
    requires
        listeners_wf(listeners),
        0 <= i < listeners.len(),
        state.wf(),
    ensures
        listeners_wf(with_state(listeners, i, state)),
        state_of(listeners, listeners[i].id) == Some(listeners[i].state),
        state_of(with_state(listeners, i, state), id) == if id == listeners[i].id {
            Some(state)
        } else {
            state_of(listeners, id)
        },
{
    lemma_by_id(listeners, i);
    lemma_with_state(listeners, i, state);
}

/// What a poll does to a listener is what can happen to a listener.
proof fn lemma_poll_is_lived(
    start: ListenerState,
    inputs: Seq<ListenerInput>,
    listeners: Seq<Listener>,
    i: int,
    outcomes: Outcomes,
    id: ListenerId,
    events: Seq<TransportEventView>,
    removal: bool,
) -> (longer: Seq<ListenerInput>)
    requires
        listeners_wf(listeners),
        0 <= i,
        lived(start, inputs, listeners, id, events, removal),
    ensures
        match whole_poll(listeners, i, outcomes) {
            (after, Some(event)) if about(event) == id => lived(
                start,
                longer,
                after,
                id,
                events.push(event),
                removal,
            ),
            (after, _) => lived(start, longer, after, id, events, removal),
        },
    decreases listeners.len() - i,
{
    if i >= listeners.len() {
        inputs
    } else {
        let at = listeners[i].id;
        let (state, visit) = listeners[i].state.visited();
        let visited = if at == id {
            inputs.push(ListenerInput::Visit)
        } else {
            inputs
        };
        lemma_state_of_with_state(listeners, i, state, id);
        if at == id {
            lemma_next_input(start, inputs, ListenerInput::Visit, id);
        }
        match visit {
            VisitView::Report(ListenerEventView::Closed) => {
                lemma_without_listener(listeners, i);
                visited
            },
            VisitView::Report(_) => visited,
            VisitView::Skip => {
                assert(with_state(listeners, i, state) =~= listeners);
                lemma_poll_is_lived(start, visited, listeners, i + 1, outcomes, id, events, removal)
            },
            VisitView::PollBind => {
                let outcome = (outcomes.binds)(at);
                let (after, event) = state.bound(outcome);
                let next = with_state(listeners, i, after);
                lemma_state_of_with_state(listeners, i, after, id);
                let polled = if at == id {
                    visited.push(ListenerInput::BindPolled(outcome))
                } else {
                    visited
                };
                if at == id {
                    lemma_next_input(start, visited, ListenerInput::BindPolled(outcome), id);
                }
                if event is None {
                    lemma_poll_is_lived(start, polled, next, i + 1, outcomes, id, events, removal)
                } else {
                    polled
                }
            },
            VisitView::PollAccept { .. } => {
                let outcome = (outcomes.accepts)(at);
                let (after, event) = state.accepted(outcome);
                let next = with_state(listeners, i, after);
                lemma_state_of_with_state(listeners, i, after, id);
                let polled = if at == id {
                    visited.push(ListenerInput::AcceptPolled(outcome))
                } else {
                    visited
                };
                if at == id {
                    lemma_next_input(start, visited, ListenerInput::AcceptPolled(outcome), id);
                }
                if event is None {
                    lemma_poll_is_lived(start, polled, next, i + 1, outcomes, id, events, removal)
                } else {
                    polled
                }
            },
        }
    }
}

/// What a series of calls does to a listener is what can happen to a listener.
proof fn lemma_history_is_lived(
    start: ListenerState,
    listeners: Seq<Listener>,
    calls: Seq<TransportCall>,
    id: ListenerId,
) -> (inputs: Seq<ListenerInput>)
    requires
        listeners_wf(listeners),
        state_of(listeners, id) == Some(start),
        forall|i: int|
            0 <= i < calls.len() ==> !(#[trigger] calls[i] matches TransportCall::ListenOn {
                id: other,
                ..
            } && other == id),
    ensures
        listeners_wf(history(listeners, calls, id).0),
        lived(
            start,
            inputs,
            history(listeners, calls, id).0,
            id,
            history(listeners, calls, id).1,
            removal_called(calls, id),
        ),
    decreases calls.len(),
{
    if calls.len() == 0 {
        assert(reports(id, Seq::empty()) =~= Seq::empty());
        Seq::empty()
    } else {
        let earlier = calls.drop_last();
        assert forall|i: int| 0 <= i < earlier.len() implies !(
        #[trigger] earlier[i] matches TransportCall::ListenOn { id: other, .. } && other == id) by {
            assert(earlier[i] == calls[i]);
        }
        assert(removal_called(earlier, id) ==> removal_called(calls, id)) by {
            assert(forall|k: int| 0 <= k < earlier.len() ==> earlier[k] == calls[k]);
        }
        let removal = removal_called(calls, id);
        let inputs = lemma_history_is_lived(start, listeners, earlier, id);
        let (before, events) = history(listeners, earlier, id);
        assert(calls[calls.len() - 1] == calls.last());
        match calls.last() {
            TransportCall::ListenOn { id: other, addr } => {
                lemma_put(before, other, ListenerState::fresh(addr));
                inputs
            },
            TransportCall::RemoveListener { id: other } => {
                if has_listener(before, other) {
                    let k = choose|k: int|
                        0 <= k < before.len() && (#[trigger] before[k]).id == other;
                    lemma_by_id(before, k);
                    lemma_put(before, other, by_id(before)[other].removed());
                    if other == id {
                        lemma_next_input(start, inputs, ListenerInput::Remove, id);
                        inputs.push(ListenerInput::Remove)
                    } else {
                        inputs
                    }
                } else {
                    inputs
                }
            },
            TransportCall::Poll(outcomes) => {
                lemma_poll_touches_only_what_it_reports(before, 0, outcomes, id);
                lemma_poll_is_lived(start, inputs, before, 0, outcomes, id, events, removal)
            },
        }
    }
}

/// Whatever is called after a listener was asked for and whatever other
/// listeners there are, what the transport reports of this listener comes in
/// order, until another one is asked for under its identifier: its address is
/// announced at most once and first; connections come in only on that address
/// and only until it expires; it expires at most once, as the address that was
/// announced; and the closing comes last, after the expiry if an address was
/// announced. Of a listener that never comes up, one error at most is reported
/// before its closing. And no address expires and no listener is closed that
/// was not asked to be removed before.
pub proof fn lemma_transport_reports_in_order(
    listeners: Seq<Listener>,
    calls: Seq<TransportCall>,
    id: ListenerId,
    addr: SocketAddr,
)
    requires
        listeners_wf(listeners),
        by_id(listeners).dom().contains(id),
        by_id(listeners)[id] == ListenerState::fresh(addr),
        forall|i: int|
            0 <= i < calls.len() ==> !(#[trigger] calls[i] matches TransportCall::ListenOn {
                id: other,
                ..
            } && other == id),
    ensures
        exists|events: Seq<ListenerEventView>|
            {
                &&& history(listeners, calls, id).1 == #[trigger] reports(id, events)
                &&& forall|i: int| 0 <= i < events.len() ==> #[trigger] in_order(events, i)
                &&& tells_of_the_end(events) ==> removal_called(calls, id)
            },
{
    let inputs = lemma_history_is_lived(ListenerState::fresh(addr), listeners, calls, id);
    lemma_listener_reports_in_order(addr, inputs);
    let events = life(ListenerState::fresh(addr), inputs).1;
    assert(history(listeners, calls, id).1 == reports(id, events));
}

/// Once a listener is asked to be removed, whatever is called then and whatever
/// other listeners there are, the transport reports nothing of it but the
/// expiry of its address, if that was announced, and its closing, in this
/// order, until another one is asked for under its identifier; and it is gone
/// exactly when all of that was reported.
pub proof fn lemma_removed_listener_winds_down(
    listeners: Seq<Listener>,
    calls: Seq<TransportCall>,
    id: ListenerId,
)
    requires
        listeners_wf(listeners),
        by_id(listeners).dom().contains(id),
        by_id(listeners)[id].closing,
        forall|i: int|
            0 <= i < calls.len() ==> !(#[trigger] calls[i] matches TransportCall::ListenOn {
                id: other,
                ..
            } && other == id),
    ensures
        ({
            let (after, events) = history(listeners, calls, id);
            let due = reports(id, winding_down(by_id(listeners)[id]));
            if by_id(after).dom().contains(id) {
                due == events + reports(id, winding_down(by_id(after)[id]))
            } else {
                due == events
            }
        }),
{
    let start = by_id(listeners)[id];
    let k = choose|k: int| 0 <= k < listeners.len() && (#[trigger] listeners[k]).id == id;
    lemma_by_id(listeners, k);
    let inputs = lemma_history_is_lived(start, listeners, calls, id);
    lemma_closing_listener_winds_down(start, inputs);
    if let (Some(state), events) = life(start, inputs) {
        assert(reports(id, events + winding_down(state)) =~= reports(id, events) + reports(
            id,
            winding_down(state),
        ));
    }
}

/// After any series of calls, no two listeners have the same identifier, and
/// each is in a state that it can be in.
pub proof fn lemma_history_keeps_listeners_wf(
    listeners: Seq<Listener>,
    calls: Seq<TransportCall>,
    id: ListenerId,
)
    requires
        listeners_wf(listeners),
    ensures
        listeners_wf(history(listeners, calls, id).0),
    decreases calls.len(),
{
    if calls.len() > 0 {
        lemma_history_keeps_listeners_wf(listeners, calls.drop_last(), id);
        let before = history(listeners, calls.drop_last(), id).0;
        match calls.last() {
            TransportCall::ListenOn { id: other, addr } => {
                lemma_put(before, other, ListenerState::fresh(addr));
            },
            TransportCall::RemoveListener { id: other } => {
                if has_listener(before, other) {
                    let k = choose|k: int|
                        0 <= k < before.len() && (#[trigger] before[k]).id == other;
                    lemma_by_id(before, k);
                    lemma_put(before, other, by_id(before)[other].removed());
                }
            },
            TransportCall::Poll(outcomes) => {
                lemma_poll_touches_only_what_it_reports(before, 0, outcomes, id);
            },
        }
    }
}

/// A transport has a listener under an identifier exactly when one was asked
/// for under it and the transport did not report since that this is closed.
pub proof fn lemma_listener_stays_until_closed(calls: Seq<TransportCall>, id: ListenerId)
    ensures
        has_listener(history(Seq::empty(), calls, id).0, id) <==> exists|k: int|
            listening_since(Seq::empty(), calls, k, id),
    decreases calls.len(),
{
    let none = Seq::<Listener>::empty();
    if calls.len() > 0 {
        let earlier = calls.drop_last();
        let n = calls.len() - 1;
        lemma_listener_stays_until_closed(earlier, id);
        lemma_history_keeps_listeners_wf(none, earlier, id);
        let before = history(none, earlier, id).0;
        assert(calls.take(n) =~= earlier);
        assert forall|j: int| 0 <= j < n implies #[trigger] closed_at(none, calls, j, id)
            == closed_at(none, earlier, j, id) by {
            assert(calls.take(j) =~= earlier.take(j));
        }
        if closed_at(none, calls, n, id) {
            assert forall|k: int| !listening_since(none, calls, k, id) by {}
        } else if asked_for_at(calls, n, id) {
            assert(listening_since(none, calls, n, id));
        } else {
            assert forall|k: int| #[trigger] listening_since(none, calls, k, id)
                == listening_since(none, earlier, k, id) by {
                if 0 <= k < n {
                    assert(earlier[k] == calls[k]);
                    assert forall|j: int|
                        listening_since(none, calls, k, id) && k < j < earlier.len() implies
                        !#[trigger] closed_at(none, earlier, j, id) by {
                        assert(!closed_at(none, calls, j, id));
                    }
                    assert forall|j: int|
                        listening_since(none, earlier, k, id) && k < j < calls.len() implies
                        !#[trigger] closed_at(none, calls, j, id) by {
                        assert(j < n ==> !closed_at(none, earlier, j, id));
                    }
                }
            }
            if exists|k: int| listening_since(none, earlier, k, id) {
                let k = choose|k: int| listening_since(none, earlier, k, id);
                assert(listening_since(none, calls, k, id));
            }
        }
        assert(calls.last() == calls[n]);
        match calls.last() {
            TransportCall::ListenOn { id: other, addr } => {
                lemma_put(before, other, ListenerState::fresh(addr));
            },
            TransportCall::RemoveListener { id: other } => {
                if has_listener(before, other) {
                    let k = choose|k: int|
                        0 <= k < before.len() && (#[trigger] before[k]).id == other;
                    lemma_by_id(before, k);
                    lemma_put(before, other, by_id(before)[other].removed());
                }
            },
            TransportCall::Poll(outcomes) => {
                lemma_poll_touches_only_what_it_reports(before, 0, outcomes, id);
            },
        }
        let after = called(before, calls.last()).0;
        assert(has_listener(after, id) <==> by_id(after).dom().contains(id));
        assert(has_listener(before, id) <==> by_id(before).dom().contains(id));
    }
}

} // verus!
