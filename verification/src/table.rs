//! The listeners of a transport: a list in which each identifier occurs once.

use libp2p_core::transport::ListenerId;
use vstd::prelude::*;

use crate::listener::ListenerState;

verus! {

/// A listener with its identifier.
#[derive(Debug)]
pub struct Listener {
    pub id: ListenerId,
    pub state: ListenerState,
}

/// Compares two identifiers with `PartialEq` of `libp2p_core::transport::ListenerId`,
/// which holds a number and nothing else: they are equal if they are the same.
#[verifier::external_body]
pub(crate) fn same_listener(a: ListenerId, b: ListenerId) -> (res: bool)
    ensures
        res == (a == b),
{
    a == b
}

/// What holds of the listeners of a transport at all times: no two of them
/// have the same identifier, and each is in a state that it can be in.
pub open spec fn listeners_wf(listeners: Seq<Listener>) -> bool {
    &&& forall|i: int, j: int|
        0 <= i < j < listeners.len() ==> (#[trigger] listeners[i]).id != (
        #[trigger] listeners[j]).id
    &&& forall|i: int| 0 <= i < listeners.len() ==> (#[trigger] listeners[i]).state.wf()
}

/// Whether one of the listeners has this identifier.
pub open spec fn has_listener(listeners: Seq<Listener>, id: ListenerId) -> bool {
    exists|i: int| 0 <= i < listeners.len() && (#[trigger] listeners[i]).id == id
}

/// The listeners by their identifiers.
pub open spec fn by_id(listeners: Seq<Listener>) -> Map<ListenerId, ListenerState> {
    Map::new(
        |id: ListenerId| has_listener(listeners, id),
        |id: ListenerId|
            listeners[choose|i: int|
                0 <= i < listeners.len() && (#[trigger] listeners[i]).id == id].state,
    )
}

/// Looking up a listener by its identifier gives its state.
pub(crate) proof fn lemma_by_id(listeners: Seq<Listener>, i: int)
    requires
        listeners_wf(listeners),
        0 <= i < listeners.len(),
    ensures
        by_id(listeners).dom().contains(listeners[i].id),
        by_id(listeners)[listeners[i].id] == listeners[i].state,
{
    assert(has_listener(listeners, listeners[i].id));
    let k = choose|k: int|
        0 <= k < listeners.len() && (#[trigger] listeners[k]).id == listeners[i].id;
    assert(k == i);
}

/// A listener with another state.
pub open spec fn with_state(
    listeners: Seq<Listener>,
    i: int,
    state: ListenerState,
) -> Seq<Listener> {
    listeners.update(i, Listener { id: listeners[i].id, state })
}

/// Changing the state of one listener leaves all others alone.
pub(crate) proof fn lemma_with_state(listeners: Seq<Listener>, i: int, state: ListenerState)
    requires
        listeners_wf(listeners),
        0 <= i < listeners.len(),
        state.wf(),
    ensures
        listeners_wf(with_state(listeners, i, state)),
        by_id(with_state(listeners, i, state)) == by_id(listeners).insert(listeners[i].id, state),
{
    let after = with_state(listeners, i, state);
    assert forall|j: int, k: int| 0 <= j < k < after.len() implies (#[trigger] after[j]).id != (
    #[trigger] after[k]).id by {
        assert(after[j].id == listeners[j].id && after[k].id == listeners[k].id);
    }
    let left = by_id(after);
    let right = by_id(listeners).insert(listeners[i].id, state);
    assert forall|id: ListenerId| left.dom().contains(id) <==> right.dom().contains(id) by {
        if has_listener(after, id) {
            let k = choose|k: int| 0 <= k < after.len() && (#[trigger] after[k]).id == id;
            assert(listeners[k].id == id);
        }
        if has_listener(listeners, id) {
            let k = choose|k: int| 0 <= k < listeners.len() && (#[trigger] listeners[k]).id == id;
            assert(after[k].id == id);
        }
        assert(after[i].id == listeners[i].id);
    }
    assert forall|id: ListenerId| left.dom().contains(id) implies left[id] == right[id] by {
        let k = choose|k: int| 0 <= k < after.len() && (#[trigger] after[k]).id == id;
        lemma_by_id(after, k);
        lemma_by_id(listeners, k);
        assert(listeners[k].id == id);
        if k != i {
            assert(listeners[k].id != listeners[i].id);
        }
    }
    assert(left =~= right);
}

/// Adding a listener under a new identifier leaves all others alone.
pub(crate) proof fn lemma_with_listener(listeners: Seq<Listener>, id: ListenerId, state: ListenerState)
    requires
        listeners_wf(listeners),
        !has_listener(listeners, id),
        state.wf(),
    ensures
        listeners_wf(listeners.push(Listener { id, state })),
        by_id(listeners.push(Listener { id, state })) == by_id(listeners).insert(id, state),
{
    let after = listeners.push(Listener { id, state });
    let left = by_id(after);
    let right = by_id(listeners).insert(id, state);
    assert forall|other: ListenerId| left.dom().contains(other) <==> right.dom().contains(
        other,
    ) by {
        if has_listener(after, other) {
            let k = choose|k: int| 0 <= k < after.len() && (#[trigger] after[k]).id == other;
            assert(k < listeners.len() ==> listeners[k].id == other);
        }
        if has_listener(listeners, other) {
            let k = choose|k: int|
                0 <= k < listeners.len() && (#[trigger] listeners[k]).id == other;
            assert(after[k].id == other);
        }
        assert(after[listeners.len() as int].id == id);
    }
    assert forall|other: ListenerId| left.dom().contains(other) implies left[other]
        == right[other] by {
        let k = choose|k: int| 0 <= k < after.len() && (#[trigger] after[k]).id == other;
        lemma_by_id(after, k);
        if k < listeners.len() {
            lemma_by_id(listeners, k);
            assert(listeners[k].id == other);
        }
    }
    assert(left =~= right);
}

/// The listeners with `state` under `id`: in the place of the listener that has
/// this identifier, or behind all others where none has it.
pub open spec fn put(
    listeners: Seq<Listener>,
    id: ListenerId,
    state: ListenerState,
) -> Seq<Listener> {
    if has_listener(listeners, id) {
        let i = choose|i: int| 0 <= i < listeners.len() && (#[trigger] listeners[i]).id == id;
        with_state(listeners, i, state)
    } else {
        listeners.push(Listener { id, state })
    }
}

/// Putting a listener under an identifier leaves all others alone, whether the
/// identifier is new or not.
pub proof fn lemma_put(listeners: Seq<Listener>, id: ListenerId, state: ListenerState)
    requires
        listeners_wf(listeners),
        state.wf(),
    ensures
        listeners_wf(put(listeners, id, state)),
        by_id(put(listeners, id, state)) == by_id(listeners).insert(id, state),
{
    if has_listener(listeners, id) {
        let i = choose|i: int| 0 <= i < listeners.len() && (#[trigger] listeners[i]).id == id;
        lemma_with_state(listeners, i, state);
    } else {
        lemma_with_listener(listeners, id, state);
    }
}

/// Putting a listener in the place of the one with its identifier is changing
/// that one's state.
pub(crate) proof fn lemma_put_in_place(listeners: Seq<Listener>, i: int, state: ListenerState)
    requires
        listeners_wf(listeners),
        0 <= i < listeners.len(),
    ensures
        put(listeners, listeners[i].id, state) == with_state(listeners, i, state),
{
    let id = listeners[i].id;
    assert(has_listener(listeners, id));
    let k = choose|k: int| 0 <= k < listeners.len() && (#[trigger] listeners[k]).id == id;
    assert(k == i);
}

/// Removing one listener leaves all others alone.
pub(crate) proof fn lemma_without_listener(listeners: Seq<Listener>, i: int)
    requires
        listeners_wf(listeners),
        0 <= i < listeners.len(),
    ensures
        listeners_wf(listeners.remove(i)),
        by_id(listeners.remove(i)) == by_id(listeners).remove(listeners[i].id),
{
    let after = listeners.remove(i);
    assert(forall|k: int| 0 <= k < i ==> after[k] == listeners[k]);
    assert(forall|k: int| i <= k < after.len() ==> after[k] == listeners[k + 1]);
    let left = by_id(after);
    let right = by_id(listeners).remove(listeners[i].id);
    assert forall|id: ListenerId| left.dom().contains(id) <==> right.dom().contains(id) by {
        if has_listener(after, id) {
            let k = choose|k: int| 0 <= k < after.len() && (#[trigger] after[k]).id == id;
            let m = if k < i {
                k
            } else {
                k + 1
            };
            assert(listeners[m].id == id);
            assert(listeners[m].id != listeners[i].id);
        }
        if has_listener(listeners, id) && id != listeners[i].id {
            let m = choose|m: int| 0 <= m < listeners.len() && (#[trigger] listeners[m]).id == id;
            let k = if m < i {
                m
            } else {
                m - 1
            };
            assert(after[k].id == id);
        }
    }
    assert forall|id: ListenerId| left.dom().contains(id) implies left[id] == right[id] by {
        let k = choose|k: int| 0 <= k < after.len() && (#[trigger] after[k]).id == id;
        lemma_by_id(after, k);
        let m = if k < i {
            k
        } else {
            k + 1
        };
        lemma_by_id(listeners, m);
        assert(listeners[m].id == id);
    }
    assert(left =~= right);
}

/// A listener is found under its identifier, and under no other one.
pub proof fn lemma_listener_is_found(listeners: Seq<Listener>, id: ListenerId)
    ensures
        has_listener(listeners, id) <==> exists|i: int|
            0 <= i < listeners.len() && (#[trigger] listeners[i]).id == id,
        by_id(listeners).dom().contains(id) <==> has_listener(listeners, id),
        listeners_wf(listeners) ==> forall|i: int|
            0 <= i < listeners.len() && (#[trigger] listeners[i]).id == id ==> by_id(listeners)[id]
                == listeners[i].state,
{
    if listeners_wf(listeners) {
        assert forall|i: int|
            0 <= i < listeners.len() && (#[trigger] listeners[i]).id == id implies by_id(
            listeners,
        )[id] == listeners[i].state by {
            lemma_by_id(listeners, i);
        }
    }
}

/// Another state for one listener changes neither its identifier nor its place,
/// and nothing of any other listener.
pub proof fn lemma_with_state_keeps_places(listeners: Seq<Listener>, i: int, state: ListenerState)
    requires
        0 <= i < listeners.len(),
    ensures
        with_state(listeners, i, state).len() == listeners.len(),
        with_state(listeners, i, state)[i].id == listeners[i].id,
        with_state(listeners, i, state)[i].state == state,
        forall|k: int|
            0 <= k < listeners.len() && k != i ==> #[trigger] with_state(listeners, i, state)[k]
                == listeners[k],
{
}

/// A listener that is put under an identifier takes the place of the one that
/// has it, and is the last one where none has; nothing changes of any other
/// listener.
pub proof fn lemma_put_keeps_places(listeners: Seq<Listener>, id: ListenerId, state: ListenerState)
    requires
        listeners_wf(listeners),
    ensures
        ({
            let after = put(listeners, id, state);
            &&& after.len() == listeners.len() + if has_listener(listeners, id) {
                0int
            } else {
                1int
            }
            &&& forall|k: int|
                0 <= k < listeners.len() ==> (#[trigger] after[k]).id == listeners[k].id
            &&& forall|k: int|
                0 <= k < listeners.len() && listeners[k].id != id ==> #[trigger] after[k]
                    == listeners[k]
            &&& forall|k: int|
                0 <= k < after.len() && (#[trigger] after[k]).id == id ==> after[k].state == state
            &&& !has_listener(listeners, id) ==> after.last().id == id
        }),
{
    if has_listener(listeners, id) {
        let i = choose|i: int| 0 <= i < listeners.len() && (#[trigger] listeners[i]).id == id;
        let after = put(listeners, id, state);
        assert forall|k: int| 0 <= k < after.len() && (#[trigger] after[k]).id == id implies
            after[k].state == state by {
            assert(k != i ==> listeners[k].id != listeners[i].id);
        }
    }
}

} // verus!
