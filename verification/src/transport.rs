//! The transport: its configuration, its listeners, and its polls.
//!
//! A poll of the transport looks at one listener after the other. Where an
//! operation of a listener is in flight, [`PollStep`] asks for it to be polled;
//! its outcome goes to [`WasiTcpTransport::bind_polled`] or
//! [`WasiTcpTransport::accept_polled`], which carry the poll on from there.

use libp2p_core::multiaddr::Multiaddr;
use libp2p_core::transport::ListenerId;
use std::time::Duration;
use vstd::prelude::*;

use crate::addr::SocketAddr;
use crate::dial::PendingDial;
use crate::duration::{duration_nanos, keep_alive_nanos};
use crate::error::{Error, ErrorKind, ErrorView};
use crate::listener::{
    outcome_view, AcceptOutcome, AcceptOutcomeView, BindOutcome, BindOutcomeView,
    ListenerEvent, ListenerEventView, ListenerState, Visit, VisitView,
};
use crate::multiaddr::{
    dial_target, endpoint_protocols, is_endpoint, listen_addr, multiaddr_protocols,
    multiaddr_to_dial_target, multiaddr_to_socketaddr, socketaddr_to_multiaddr, ProtocolView,
};
use crate::poll::Poll;
use crate::socket::{bind_actions, Bind};
use crate::table::{
    by_id, has_listener, lemma_by_id, lemma_put, lemma_put_in_place, lemma_with_state,
    lemma_without_listener, listeners_wf, put, same_listener, with_state, Listener,
};

verus! {

// ── Configuration ────────────────────────────────────────────────────────────

/// Configuration for [`WasiTcpTransport`].
#[derive(Debug)]
pub struct Config {
    /// Disable Nagle's algorithm.
    ///
    /// **Note**: TCP_NODELAY is not part of the WASI 0.2 sockets interface; this
    /// field is accepted for API compatibility but has no effect at runtime.
    pub nodelay: bool,
    /// TCP keep-alive idle time.  `None` disables keep-alive.
    ///
    /// Accepted sockets inherit keep-alive settings from the listener socket.
    pub keep_alive: Option<Duration>,
    /// Listen backlog. Defaults to 128.
    pub listen_backlog: u32,
}

impl Config {
    /// The keep-alive idle time in the unit of the host, where there is one.
    pub open spec fn idle_nanos(self) -> Option<u64> {
        match self.keep_alive {
            Some(dur) => Some((duration_nanos(dur) % 0x1_0000_0000_0000_0000) as u64),
            None => None,
        }
    }

    /// The keep-alive idle time in the unit of the host, where there is one.
    fn keep_alive_idle_time(&self) -> (res: Option<u64>)
        ensures
            res == self.idle_nanos(),
    {
        match self.keep_alive {
            Some(dur) => Some(keep_alive_nanos(dur)),
            None => None,
        }
    }
}

impl Clone for Config {
    fn clone(&self) -> (res: Self)
        ensures
            res == *self,
    {
        Config {
            nodelay: self.nodelay,
            keep_alive: self.keep_alive,
            listen_backlog: self.listen_backlog,
        }
    }
}

impl Default for Config {
    fn default() -> (res: Self)
        ensures
            res.nodelay,
            res.keep_alive is None,
            res.listen_backlog == 128,
    {
        Config { nodelay: true, keep_alive: None, listen_backlog: 128 }
    }
}

// ── Events ───────────────────────────────────────────────────────────────────

/// Something to report of the transport.
#[derive(Debug)]
pub enum TransportEvent {
    /// A new address is being listened on.
    NewAddress { listener_id: ListenerId, listen_addr: Multiaddr },
    /// An address is no longer being listened on.
    AddressExpired { listener_id: ListenerId, listen_addr: Multiaddr },
    /// A connection came in. It is ready for use.
    Incoming { listener_id: ListenerId, local_addr: Multiaddr, send_back_addr: Multiaddr },
    /// A listener closed.
    ListenerClosed { listener_id: ListenerId, reason: Result<(), Error> },
    /// A listener errored.
    ListenerError { listener_id: ListenerId, error: Error },
}

/// The value of a [`TransportEvent`].
pub enum TransportEventView {
    NewAddress { listener_id: ListenerId, listen_addr: Seq<ProtocolView> },
    AddressExpired { listener_id: ListenerId, listen_addr: Seq<ProtocolView> },
    Incoming {
        listener_id: ListenerId,
        local_addr: Seq<ProtocolView>,
        send_back_addr: Seq<ProtocolView>,
    },
    ListenerClosed { listener_id: ListenerId, reason: Result<(), ErrorView> },
    ListenerError { listener_id: ListenerId, error: ErrorView },
}

impl View for TransportEvent {
    type V = TransportEventView;

    open spec fn view(&self) -> TransportEventView {
        match self {
            TransportEvent::NewAddress { listener_id, listen_addr } => {
                TransportEventView::NewAddress {
                    listener_id: *listener_id,
                    listen_addr: multiaddr_protocols(*listen_addr),
                }
            },
            TransportEvent::AddressExpired { listener_id, listen_addr } => {
                TransportEventView::AddressExpired {
                    listener_id: *listener_id,
                    listen_addr: multiaddr_protocols(*listen_addr),
                }
            },
            TransportEvent::Incoming { listener_id, local_addr, send_back_addr } => {
                TransportEventView::Incoming {
                    listener_id: *listener_id,
                    local_addr: multiaddr_protocols(*local_addr),
                    send_back_addr: multiaddr_protocols(*send_back_addr),
                }
            },
            TransportEvent::ListenerClosed { listener_id, reason } => {
                TransportEventView::ListenerClosed {
                    listener_id: *listener_id,
                    reason: match reason {
                        Ok(_) => Ok(()),
                        Err(e) => Err(e@),
                    },
                }
            },
            TransportEvent::ListenerError { listener_id, error } => {
                TransportEventView::ListenerError { listener_id: *listener_id, error: error@ }
            },
        }
    }
}

/// How an event of a listener is reported: with its identifier, and with its
/// addresses as multiaddresses.
pub open spec fn report(id: ListenerId, event: ListenerEventView) -> TransportEventView {
    match event {
        ListenerEventView::NewAddress(addr) => TransportEventView::NewAddress {
            listener_id: id,
            listen_addr: endpoint_protocols(addr),
        },
        ListenerEventView::AddressExpired(addr) => TransportEventView::AddressExpired {
            listener_id: id,
            listen_addr: endpoint_protocols(addr),
        },
        ListenerEventView::Incoming { local_addr, send_back_addr } => {
            TransportEventView::Incoming {
                listener_id: id,
                local_addr: endpoint_protocols(local_addr),
                send_back_addr: endpoint_protocols(send_back_addr),
            }
        },
        ListenerEventView::Closed => TransportEventView::ListenerClosed {
            listener_id: id,
            reason: Ok(()),
        },
        ListenerEventView::Error(error) => TransportEventView::ListenerError {
            listener_id: id,
            error,
        },
    }
}

/// Reports an event of a listener.
fn reported(id: ListenerId, event: ListenerEvent) -> (res: TransportEvent)
    ensures
        res@ == report(id, event@),
{
    match event {
        ListenerEvent::NewAddress(addr) => TransportEvent::NewAddress {
            listener_id: id,
            listen_addr: socketaddr_to_multiaddr(addr),
        },
        ListenerEvent::AddressExpired(addr) => TransportEvent::AddressExpired {
            listener_id: id,
            listen_addr: socketaddr_to_multiaddr(addr),
        },
        ListenerEvent::Incoming { local_addr, send_back_addr } => TransportEvent::Incoming {
            listener_id: id,
            local_addr: socketaddr_to_multiaddr(local_addr),
            send_back_addr: socketaddr_to_multiaddr(send_back_addr),
        },
        ListenerEvent::Closed => TransportEvent::ListenerClosed {
            listener_id: id,
            reason: Ok(()),
        },
        ListenerEvent::Error(error) => TransportEvent::ListenerError { listener_id: id, error },
    }
}

// ── Polling ──────────────────────────────────────────────────────────────────

/// What a poll of the transport comes to next.
#[derive(Debug)]
pub enum PollStep {
    /// The poll is over: there is nothing to report.
    Pending,
    /// The poll is over: there is this to report.
    Ready(TransportEvent),
    /// Poll the bringing up of the listener `id`, and hand the outcome to
    /// [`WasiTcpTransport::bind_polled`] with the same `at`.
    PollBind { at: usize, id: ListenerId },
    /// Poll the accepting of a connection on the listener `id`, and hand the
    /// outcome to [`WasiTcpTransport::accept_polled`] with the same `at`.
    /// Accepting is to be started first if `start` is set.
    PollAccept { at: usize, id: ListenerId, start: bool },
}

/// The value of a [`PollStep`].
pub enum PollStepView {
    Pending,
    Ready(TransportEventView),
    PollBind { at: int, id: ListenerId },
    PollAccept { at: int, id: ListenerId, start: bool },
}

impl View for PollStep {
    type V = PollStepView;

    open spec fn view(&self) -> PollStepView {
        match self {
            PollStep::Pending => PollStepView::Pending,
            PollStep::Ready(event) => PollStepView::Ready(event@),
            PollStep::PollBind { at, id } => PollStepView::PollBind { at: *at as int, id: *id },
            PollStep::PollAccept { at, id, start } => PollStepView::PollAccept {
                at: *at as int,
                id: *id,
                start: *start,
            },
        }
    }
}

/// Looking at the listeners from the `i`-th on: those with nothing to do are
/// passed over, and the first other one decides.
pub open spec fn scan(listeners: Seq<Listener>, i: int) -> (Seq<Listener>, PollStepView)
    decreases listeners.len() - i,
{
    if i < 0 || i >= listeners.len() {
        (listeners, PollStepView::Pending)
    } else {
        let id = listeners[i].id;
        let (state, visit) = listeners[i].state.visited();
        match visit {
            VisitView::Skip => scan(listeners, i + 1),
            VisitView::PollBind => (listeners, PollStepView::PollBind { at: i, id }),
            VisitView::PollAccept { start } => (
                with_state(listeners, i, state),
                PollStepView::PollAccept { at: i, id, start },
            ),
            VisitView::Report(ListenerEventView::Closed) => (
                listeners.remove(i),
                PollStepView::Ready(report(id, ListenerEventView::Closed)),
            ),
            VisitView::Report(event) => (
                with_state(listeners, i, state),
                PollStepView::Ready(report(id, event)),
            ),
        }
    }
}

/// What comes of polling an operation of the `at`-th listener that left it in
/// `state`: what there is to report, or else the next listeners.
pub open spec fn carry_on(
    listeners: Seq<Listener>,
    at: int,
    state: ListenerState,
    event: Option<ListenerEventView>,
) -> (Seq<Listener>, PollStepView) {
    match event {
        Some(event) => (
            with_state(listeners, at, state),
            PollStepView::Ready(report(listeners[at].id, event)),
        ),
        None => scan(with_state(listeners, at, state), at + 1),
    }
}

/// Looking at the listeners keeps what holds of them at all times.
proof fn lemma_scan_wf(listeners: Seq<Listener>, i: int)
    requires
        listeners_wf(listeners),
    ensures
        listeners_wf(scan(listeners, i).0),
    decreases listeners.len() - i,
{
    if 0 <= i < listeners.len() {
        let (state, visit) = listeners[i].state.visited();
        lemma_with_state(listeners, i, state);
        lemma_without_listener(listeners, i);
        lemma_scan_wf(listeners, i + 1);
    }
}

// ── The transport ────────────────────────────────────────────────────────────

/// The state of a libp2p transport backed by `wasi:sockets/tcp`.
#[derive(Debug)]
pub struct WasiTcpTransport {
    config: Config,
    listeners: Vec<Listener>,
}

impl WasiTcpTransport {
    /// The configuration.
    pub closed spec fn config(self) -> Config {
        self.config
    }

    /// The listeners, in the order in which a poll looks at them.
    pub closed spec fn listeners(self) -> Seq<Listener> {
        self.listeners@
    }

    /// What holds of a transport at all times.
    pub open spec fn wf(self) -> bool {
        listeners_wf(self.listeners())
    }

    /// The state of the `at`-th listener.
    pub open spec fn state_at(self, at: int) -> ListenerState {
        self.listeners()[at].state
    }

    /// Creates a transport with the given [`Config`], without listeners.
    pub fn new(config: Config) -> (res: WasiTcpTransport)
        ensures
            res.config() == config,
            res.listeners() == Seq::<Listener>::empty(),
            res.wf(),
    {
        WasiTcpTransport { config, listeners: Vec::new() }
    }

    /// The place of the listener with an identifier.
    fn position(&self, id: ListenerId) -> (res: Option<usize>)
        ensures
            match res {
                Some(i) => i < self.listeners().len() && self.listeners()[i as int].id == id,
                None => !has_listener(self.listeners(), id),
            },
    {
        let mut i: usize = 0;
        while i < self.listeners.len()
            invariant
                i <= self.listeners@.len(),
                forall|j: int| 0 <= j < i ==> (#[trigger] self.listeners@[j]).id != id,
            decreases self.listeners@.len() - i,
        {
            if same_listener(self.listeners[i].id, id) {
                return Some(i);
            }
            i += 1;
        }
        None
    }

    /// The state of the `at`-th listener, if there is one.
    pub fn listener_at(&self, at: usize) -> (res: Option<ListenerState>)
        ensures
            res == if at < self.listeners().len() {
                Some(self.state_at(at as int))
            } else {
                None
            },
    {
        if at < self.listeners.len() {
            Some(self.listeners[at].state)
        } else {
            None
        }
    }

    /// Asks for a listener on `addr`, and hands out how it is brought up.
    ///
    /// A listener that has the same identifier already makes way for the new one.
    pub fn listen_on(&mut self, id: ListenerId, addr: Multiaddr) -> (res: Result<Bind, Error>)
        requires
            old(self).wf(),
        ensures
            final(self).wf(),
            final(self).config() == old(self).config(),
            match res {
                Ok(bind) => {
                    &&& listen_addr(multiaddr_protocols(addr)) matches Some(a) && {
                        &&& bind.procedure.actions@ == bind_actions(
                            a,
                            old(self).config().listen_backlog,
                            old(self).config().idle_nanos(),
                        )
                        &&& bind.procedure.position == 0
                        &&& final(self).listeners() == put(
                            old(self).listeners(),
                            id,
                            ListenerState::fresh(a),
                        )
                    }
                },
                Err(e) => {
                    &&& listen_addr(multiaddr_protocols(addr)) is None
                    &&& e@ == ErrorView::UnsupportedMultiaddr(addr)
                    &&& final(self).listeners() == old(self).listeners()
                },
            },
    {
        let sock_addr = match multiaddr_to_socketaddr(&addr) {
            Ok(sock_addr) => sock_addr,
            Err(e) => return Err(e),
        };
        let state = ListenerState::new(sock_addr);
        proof {
            lemma_put(self.listeners(), id, state);
        }
        match self.position(id) {
            Some(i) => {
                proof {
                    lemma_put_in_place(self.listeners(), i as int, state);
                }
                self.listeners.set(i, Listener { id, state });
            },
            None => {
                self.listeners.push(Listener { id, state });
            },
        }
        Ok(
            Bind::new(
                sock_addr,
                self.config.listen_backlog,
                self.config.keep_alive_idle_time(),
            ),
        )
    }

    /// Asks for a listener to be removed, and tells whether there is one.
    ///
    /// The polls that follow report that its address expired, if it was
    /// announced, and that it is closed.
    pub fn remove_listener(&mut self, id: ListenerId) -> (res: bool)
        requires
            old(self).wf(),
        ensures
            final(self).wf(),
            final(self).config() == old(self).config(),
            res == has_listener(old(self).listeners(), id),
            final(self).listeners() == if res {
                put(old(self).listeners(), id, by_id(old(self).listeners())[id].removed())
            } else {
                old(self).listeners()
            },
    {
        match self.position(id) {
            Some(i) => {
                let mut state = self.listeners[i].state;
                state.closing = true;
                proof {
                    lemma_by_id(self.listeners(), i as int);
                    lemma_put(self.listeners(), id, state);
                    lemma_put_in_place(self.listeners(), i as int, state);
                }
                self.listeners.set(i, Listener { id, state });
                true
            },
            None => false,
        }
    }

    /// Asks for a connection to `addr`, and hands out how it is made.
    pub fn dial(&mut self, addr: Multiaddr) -> (res: Result<PendingDial, Error>)
        ensures
            *final(self) == *old(self),
            match res {
                Ok(dial) => {
                    &&& dial_target(multiaddr_protocols(addr)) == Some(dial.target@)
                    &&& dial.keep_alive == old(self).config().idle_nanos()
                },
                Err(e) => {
                    &&& dial_target(multiaddr_protocols(addr)) is None
                    &&& e@ == ErrorView::UnsupportedMultiaddr(addr)
                },
            },
    {
        match multiaddr_to_dial_target(&addr) {
            Ok(target) => Ok(
                PendingDial { target, keep_alive: self.config.keep_alive_idle_time() },
            ),
            Err(e) => Err(e),
        }
    }

    /// Looks at the listeners from the `from`-th on.
    fn scan_from(&mut self, from: usize) -> (res: PollStep)
        requires
            old(self).wf(),
        ensures
            (final(self).listeners(), res@) == scan(old(self).listeners(), from as int),
            final(self).config() == old(self).config(),
            final(self).wf(),
    {
        proof {
            lemma_scan_wf(self.listeners(), from as int);
        }
        let mut i: usize = from;
        while i < self.listeners.len()
            invariant
                old(self).wf(),
                *self == *old(self),
                scan(old(self).listeners(), from as int) == scan(old(self).listeners(), i as int),
                listeners_wf(scan(old(self).listeners(), from as int).0),
            decreases self.listeners@.len() - i,
        {
            let id = self.listeners[i].id;
            let mut state = self.listeners[i].state;
            match state.visit() {
                Visit::Skip => {},
                Visit::PollBind => {
                    return PollStep::PollBind { at: i, id };
                },
                Visit::PollAccept { start } => {
                    self.listeners.set(i, Listener { id, state });
                    return PollStep::PollAccept { at: i, id, start };
                },
                Visit::Report(ListenerEvent::Closed) => {
                    self.listeners.remove(i);
                    return PollStep::Ready(reported(id, ListenerEvent::Closed));
                },
                Visit::Report(event) => {
                    self.listeners.set(i, Listener { id, state });
                    return PollStep::Ready(reported(id, event));
                },
            }
            i += 1;
        }
        PollStep::Pending
    }

    /// Begins a poll of the transport.
    pub fn poll(&mut self) -> (res: PollStep)
        requires
            old(self).wf(),
        ensures
            (final(self).listeners(), res@) == scan(old(self).listeners(), 0),
            final(self).config() == old(self).config(),
            final(self).wf(),
    {
        self.scan_from(0)
    }

    /// Carries a poll on after [`PollStep::PollBind`].
    pub fn bind_polled(&mut self, at: usize, outcome: BindOutcome) -> (res: PollStep)
        requires
            old(self).wf(),
            at < old(self).listeners().len(),
            old(self).state_at(at as int).awaits_bind(),
        ensures
            ({
                let (state, event) = old(self).state_at(at as int).bound(outcome_view(outcome));
                (final(self).listeners(), res@) == carry_on(
                    old(self).listeners(),
                    at as int,
                    state,
                    event,
                )
            }),
            final(self).config() == old(self).config(),
            final(self).wf(),
    {
        let len: usize = self.listeners.len();
        assert(at < len);
        let id = self.listeners[at].id;
        let mut state = self.listeners[at].state;
        let event = state.bind_polled(outcome);
        proof {
            lemma_with_state(self.listeners(), at as int, state);
        }
        self.listeners.set(at, Listener { id, state });
        match event {
            Some(event) => PollStep::Ready(reported(id, event)),
            None => self.scan_from(at + 1),
        }
    }

    /// Carries a poll on after [`PollStep::PollAccept`].
    pub fn accept_polled(&mut self, at: usize, outcome: AcceptOutcome) -> (res: PollStep)
        requires
            old(self).wf(),
            at < old(self).listeners().len(),
            old(self).state_at(at as int).awaits_accept(),
        ensures
            ({
                let (state, event) = old(self).state_at(at as int).accepted(outcome_view(outcome));
                (final(self).listeners(), res@) == carry_on(
                    old(self).listeners(),
                    at as int,
                    state,
                    event,
                )
            }),
            final(self).config() == old(self).config(),
            final(self).wf(),
    {
        let len: usize = self.listeners.len();
        assert(at < len);
        let id = self.listeners[at].id;
        let mut state = self.listeners[at].state;
        let event = state.accept_polled(outcome);
        proof {
            lemma_with_state(self.listeners(), at as int, state);
        }
        self.listeners.set(at, Listener { id, state });
        match event {
            Some(event) => PollStep::Ready(reported(id, event)),
            None => self.scan_from(at + 1),
        }
    }
}

impl Default for WasiTcpTransport {
    fn default() -> (res: Self)
        ensures
            res.config().nodelay,
            res.config().keep_alive is None,
            res.config().listen_backlog == 128,
            res.listeners() == Seq::<Listener>::empty(),
            res.wf(),
    {
        WasiTcpTransport::new(Config::default())
    }
}

// ── Laws ─────────────────────────────────────────────────────────────────────

/// What the polls of operations in flight come to during one poll of the
/// transport, by listener.
pub struct Outcomes {
    pub binds: spec_fn(ListenerId) -> BindOutcomeView,
    pub accepts: spec_fn(ListenerId) -> AcceptOutcomeView,
}

/// A whole poll of the transport, from the `i`-th listener on: what becomes of
/// the listeners, and what is reported, if anything is.
///
/// The first listener with something to report ends the poll.
pub open spec fn whole_poll(listeners: Seq<Listener>, i: int, outcomes: Outcomes) -> (
    Seq<Listener>,
    Option<TransportEventView>,
)
    decreases listeners.len() - i,
{
    if i < 0 || i >= listeners.len() {
        (listeners, None)
    } else {
        let id = listeners[i].id;
        let (state, visit) = listeners[i].state.visited();
        match visit {
            VisitView::Report(ListenerEventView::Closed) => (
                listeners.remove(i),
                Some(report(id, ListenerEventView::Closed)),
            ),
            VisitView::Report(event) => (
                with_state(listeners, i, state),
                Some(report(id, event)),
            ),
            VisitView::Skip => whole_poll(listeners, i + 1, outcomes),
            VisitView::PollBind => {
                let (after, event) = state.bound((outcomes.binds)(id));
                match event {
                    Some(event) => (with_state(listeners, i, after), Some(report(id, event))),
                    None => whole_poll(with_state(listeners, i, after), i + 1, outcomes),
                }
            },
            VisitView::PollAccept { .. } => {
                let (after, event) = state.accepted((outcomes.accepts)(id));
                match event {
                    Some(event) => (with_state(listeners, i, after), Some(report(id, event))),
                    None => whole_poll(with_state(listeners, i, after), i + 1, outcomes),
                }
            },
        }
    }
}

/// What a poll that has come to `step` comes to in the end.
pub open spec fn rest_of_poll(
    listeners: Seq<Listener>,
    step: PollStepView,
    outcomes: Outcomes,
) -> (Seq<Listener>, Option<TransportEventView>) {
    match step {
        PollStepView::Pending => (listeners, None),
        PollStepView::Ready(event) => (listeners, Some(event)),
        PollStepView::PollBind { at, id } => {
            let (state, event) = listeners[at].state.bound((outcomes.binds)(id));
            match event {
                Some(event) => (with_state(listeners, at, state), Some(report(id, event))),
                None => whole_poll(with_state(listeners, at, state), at + 1, outcomes),
            }
        },
        PollStepView::PollAccept { at, id, .. } => {
            let (state, event) = listeners[at].state.accepted((outcomes.accepts)(id));
            match event {
                Some(event) => (with_state(listeners, at, state), Some(report(id, event))),
                None => whole_poll(with_state(listeners, at, state), at + 1, outcomes),
            }
        },
    }
}

/// The step that looking at the listeners from the `i`-th on comes to is the
/// beginning of the whole poll from there.
pub proof fn lemma_poll_begins(listeners: Seq<Listener>, i: int, outcomes: Outcomes)
    requires
        0 <= i,
    ensures
        ({
            let (after, step) = scan(listeners, i);
            rest_of_poll(after, step, outcomes) == whole_poll(listeners, i, outcomes)
        }),
    decreases listeners.len() - i,
{
    if i < listeners.len() {
        let (state, visit) = listeners[i].state.visited();
        match visit {
            VisitView::Skip => lemma_poll_begins(listeners, i + 1, outcomes),
            VisitView::PollAccept { .. } => {
                let once = with_state(listeners, i, state);
                let after = state.accepted((outcomes.accepts)(listeners[i].id)).0;
                assert(with_state(once, i, after) =~= with_state(listeners, i, after));
            },
            _ => {},
        }
    }
}

/// Handing in the outcome of an operation leads to a step from which the whole
/// poll ends in the same way. So a poll that is driven step by step comes to
/// what [`whole_poll`] says.
pub proof fn lemma_poll_carries_on(
    listeners: Seq<Listener>,
    step: PollStepView,
    outcomes: Outcomes,
)
    requires
        match step {
            PollStepView::PollBind { at, id } => {
                0 <= at < listeners.len() && listeners[at].id == id
            },
            PollStepView::PollAccept { at, id, .. } => {
                0 <= at < listeners.len() && listeners[at].id == id
            },
            _ => false,
        },
    ensures
        step matches PollStepView::PollBind { at, id } ==> {
            let (state, event) = listeners[at].state.bound((outcomes.binds)(id));
            let (after, next) = carry_on(listeners, at, state, event);
            rest_of_poll(after, next, outcomes) == rest_of_poll(listeners, step, outcomes)
        },
        step matches PollStepView::PollAccept { at, id, .. } ==> {
            let (state, event) = listeners[at].state.accepted((outcomes.accepts)(id));
            let (after, next) = carry_on(listeners, at, state, event);
            rest_of_poll(after, next, outcomes) == rest_of_poll(listeners, step, outcomes)
        },
{
    match step {
        PollStepView::PollBind { at, id } => {
            let state = listeners[at].state.bound((outcomes.binds)(id)).0;
            lemma_poll_begins(with_state(listeners, at, state), at + 1, outcomes);
        },
        PollStepView::PollAccept { at, id, .. } => {
            let state = listeners[at].state.accepted((outcomes.accepts)(id)).0;
            lemma_poll_begins(with_state(listeners, at, state), at + 1, outcomes);
        },
        _ => {},
    }
}

/// A step asks for an operation of a listener that awaits it, and never of one
/// that was looked at before: a poll asks at most once for each listener.
pub proof fn lemma_poll_moves_forward(listeners: Seq<Listener>, i: int)
    requires
        0 <= i,
    ensures
        match scan(listeners, i) {
            (after, PollStepView::PollBind { at, id }) => {
                &&& i <= at < after.len()
                &&& after.len() == listeners.len()
                &&& after[at].id == id
                &&& after[at].state.awaits_bind()
            },
            (after, PollStepView::PollAccept { at, id, .. }) => {
                &&& i <= at < after.len()
                &&& after.len() == listeners.len()
                &&& after[at].id == id
                &&& after[at].state.awaits_accept()
            },
            _ => true,
        },
    decreases listeners.len() - i,
{
    if i < listeners.len() {
        lemma_poll_moves_forward(listeners, i + 1);
    }
}

/// A connection is accepted only on a listener whose address is announced.
pub proof fn lemma_accepts_only_when_announced(listeners: Seq<Listener>, i: int)
    requires
        0 <= i,
        listeners_wf(listeners),
    ensures
        scan(listeners, i) matches (after, PollStepView::PollAccept { at, .. })
            ==> after[at].state.announced && after[at].state.listener is Some,
    decreases listeners.len() - i,
{
    if i < listeners.len() {
        lemma_accepts_only_when_announced(listeners, i + 1);
    }
}

/// A poll that comes across a listener to be closed always has something to
/// report.
pub proof fn lemma_closing_listener_is_reported(
    listeners: Seq<Listener>,
    i: int,
    k: int,
    outcomes: Outcomes,
)
    requires
        0 <= i <= k < listeners.len(),
        listeners[k].state.closing,
    ensures
        whole_poll(listeners, i, outcomes).1 is Some,
    decreases listeners.len() - i,
{
    let (state, visit) = listeners[i].state.visited();
    let id = listeners[i].id;
    if i < k {
        match visit {
            VisitView::Skip => {
                lemma_closing_listener_is_reported(listeners, i + 1, k, outcomes);
            },
            VisitView::PollBind => {
                let after = state.bound((outcomes.binds)(id)).0;
                lemma_closing_listener_is_reported(
                    with_state(listeners, i, after),
                    i + 1,
                    k,
                    outcomes,
                );
            },
            VisitView::PollAccept { .. } => {
                let after = state.accepted((outcomes.accepts)(id)).0;
                lemma_closing_listener_is_reported(
                    with_state(listeners, i, after),
                    i + 1,
                    k,
                    outcomes,
                );
            },
            _ => {},
        }
    }
}

/// Whether a listener has nothing to report in a poll with these outcomes: it
/// is not to be closed, and what is in flight for it stays in flight.
pub open spec fn quiet(listener: Listener, outcomes: Outcomes) -> bool {
    let state = listener.state;
    &&& !state.closing
    &&& state.binding ==> (outcomes.binds)(listener.id) is Pending
    &&& state.listener is Some ==> (outcomes.accepts)(listener.id) is Pending
}

/// A poll has nothing to report exactly when no listener is to be closed, every
/// one that is being brought up stays so, and no connection is accepted, nor
/// does accepting fail, on any that is up.
pub proof fn lemma_poll_is_pending_while_quiet(
    listeners: Seq<Listener>,
    i: int,
    outcomes: Outcomes,
)
    requires
        0 <= i,
        listeners_wf(listeners),
    ensures
        whole_poll(listeners, i, outcomes).1 is None <==> forall|k: int|
            i <= k < listeners.len() ==> quiet(#[trigger] listeners[k], outcomes),
    decreases listeners.len() - i,
{
    if i < listeners.len() {
        let id = listeners[i].id;
        let (state, visit) = listeners[i].state.visited();
        let after = match visit {
            VisitView::PollBind => state.bound((outcomes.binds)(id)).0,
            VisitView::PollAccept { .. } => state.accepted((outcomes.accepts)(id)).0,
            _ => state,
        };
        let next = with_state(listeners, i, after);
        if quiet(listeners[i], outcomes) {
            lemma_with_state(listeners, i, after);
            lemma_poll_is_pending_while_quiet(next, i + 1, outcomes);
            assert(visit is Skip ==> next =~= listeners);
            assert(forall|k: int| i < k < listeners.len() ==> next[k] == listeners[k]);
            assert forall|k: int|
                (forall|j: int| i < j < next.len() ==> quiet(#[trigger] next[j], outcomes)) && i
                    <= k < listeners.len() implies quiet(#[trigger] listeners[k], outcomes) by {
                assert(k > i ==> quiet(next[k], outcomes));
            }
        }
    }
}

/// The listener that an event is about.
pub open spec fn about(event: TransportEventView) -> ListenerId {
    match event {
        TransportEventView::NewAddress { listener_id, .. } => listener_id,
        TransportEventView::AddressExpired { listener_id, .. } => listener_id,
        TransportEventView::Incoming { listener_id, .. } => listener_id,
        TransportEventView::ListenerClosed { listener_id, .. } => listener_id,
        TransportEventView::ListenerError { listener_id, .. } => listener_id,
    }
}

/// The same listener, but for whether accepting is in flight.
pub open spec fn same_but_accepting(before: ListenerState, after: ListenerState) -> bool {
    after == (ListenerState { accepting: after.accepting, ..before })
}

/// A poll keeps what holds of the listeners at all times. It adds no listener,
/// removes only one whose closing it reports, and changes no listener but the
/// one that it reports something of, apart from starting to accept.
pub proof fn lemma_poll_touches_only_what_it_reports(
    listeners: Seq<Listener>,
    i: int,
    outcomes: Outcomes,
    id: ListenerId,
)
    requires
        listeners_wf(listeners),
        0 <= i,
    ensures
        ({
            let (after, event) = whole_poll(listeners, i, outcomes);
            let before_map = by_id(listeners);
            let after_map = by_id(after);
            &&& listeners_wf(after)
            &&& event matches Some(e) ==> before_map.dom().contains(about(e))
            &&& after_map.dom() == match event {
                Some(TransportEventView::ListenerClosed { listener_id, .. }) => {
                    before_map.dom().remove(listener_id)
                },
                _ => before_map.dom(),
            }
            &&& before_map.dom().contains(id) && !(event matches Some(e) && about(e) == id)
                ==> same_but_accepting(before_map[id], after_map[id])
        }),
    decreases listeners.len() - i,
{
    if i < listeners.len() {
        let at = listeners[i].id;
        let (state, visit) = listeners[i].state.visited();
        lemma_by_id(listeners, i);
        match visit {
            VisitView::Report(ListenerEventView::Closed) => {
                lemma_without_listener(listeners, i);
            },
            VisitView::Report(event) => {
                lemma_with_state(listeners, i, state);
                assert(by_id(with_state(listeners, i, state)).dom() =~= by_id(listeners).dom());
            },
            VisitView::Skip => {
                lemma_poll_touches_only_what_it_reports(listeners, i + 1, outcomes, id);
            },
            VisitView::PollBind => {
                let (after, event) = state.bound((outcomes.binds)(at));
                let next = with_state(listeners, i, after);
                lemma_with_state(listeners, i, after);
                assert(by_id(next).dom() =~= by_id(listeners).dom());
                if event is None {
                    lemma_poll_touches_only_what_it_reports(next, i + 1, outcomes, id);
                }
            },
            VisitView::PollAccept { .. } => {
                let (after, event) = state.accepted((outcomes.accepts)(at));
                let next = with_state(listeners, i, after);
                lemma_with_state(listeners, i, after);
                assert(by_id(next).dom() =~= by_id(listeners).dom());
                if event is None {
                    lemma_poll_touches_only_what_it_reports(next, i + 1, outcomes, id);
                }
            },
        }
    }
}

/// The keep-alive idle time is the length of the duration asked for, cut to 64
/// bits, and there is none where none was asked for.
pub proof fn lemma_idle_time_is_the_one_asked_for(config: Config)
    ensures
        config.idle_nanos() is Some <==> config.keep_alive is Some,
        config.keep_alive matches Some(dur) ==> (config.idle_nanos() matches Some(nanos) && nanos
            == duration_nanos(dur) % 0x1_0000_0000_0000_0000),
{
}

/// What is reported of a listener is reported under its own identifier, and
/// with every address written with its own IP address and its own port.
pub proof fn lemma_report_names_the_listener_and_its_addresses(
    id: ListenerId,
    addr: SocketAddr,
    peer: SocketAddr,
    e: ErrorView,
)
    ensures
        report(id, ListenerEventView::NewAddress(addr)) matches TransportEventView::NewAddress {
            listener_id,
            listen_addr,
        } && listener_id == id && is_endpoint(listen_addr, addr),
        report(id, ListenerEventView::AddressExpired(addr))
            matches TransportEventView::AddressExpired { listener_id, listen_addr } && listener_id
            == id && is_endpoint(listen_addr, addr),
        report(id, ListenerEventView::Incoming { local_addr: addr, send_back_addr: peer })
            matches TransportEventView::Incoming { listener_id, local_addr, send_back_addr }
            && listener_id == id && is_endpoint(local_addr, addr) && is_endpoint(
            send_back_addr,
            peer,
        ),
        report(id, ListenerEventView::Closed) matches TransportEventView::ListenerClosed {
            listener_id,
            reason,
        } && listener_id == id && reason is Ok,
        report(id, ListenerEventView::Error(e)) matches TransportEventView::ListenerError {
            listener_id,
            error,
        } && listener_id == id && error == e,
{
}

/// Whether there is nothing to do for a listener: it could not be brought up,
/// and is not to be closed.
pub open spec fn nothing_to_do(state: ListenerState) -> bool {
    !state.closing && !state.binding && state.listener is None
}

/// A poll passes over listeners for which there is nothing to do, however many
/// there are, and ends where there is no other one.
pub proof fn lemma_poll_passes_over_listeners_with_nothing_to_do(listeners: Seq<Listener>, i: int)
    requires
        0 <= i,
        forall|k: int|
            i <= k < listeners.len() ==> nothing_to_do((#[trigger] listeners[k]).state),
    ensures
        scan(listeners, i).0 == listeners,
        scan(listeners, i).1 is Pending,
    decreases listeners.len() - i,
{
    if i < listeners.len() {
        lemma_poll_passes_over_listeners_with_nothing_to_do(listeners, i + 1);
    }
}

/// A poll stops at the first listener for which there is something to do, does
/// exactly that, and leaves all others alone. A listener to be closed is
/// reported, under its own identifier: first that its address, the one that it
/// is up on, expired, if that is announced, and then that it is closed, with
/// which it is gone. One that is being brought up has that polled. One that is
/// up accepts, which is started exactly if it is not in flight.
pub proof fn lemma_poll_stops_at_the_first_with_something_to_do(
    listeners: Seq<Listener>,
    i: int,
    k: int,
)
    requires
        0 <= i <= k < listeners.len(),
        listeners_wf(listeners),
        forall|j: int| i <= j < k ==> nothing_to_do((#[trigger] listeners[j]).state),
        !nothing_to_do(listeners[k].state),
    ensures
        ({
            let (after, step) = scan(listeners, i);
            let id = listeners[k].id;
            let state = listeners[k].state;
            if state.closing && !state.announced {
                &&& after == listeners.remove(k)
                &&& step matches PollStepView::Ready(
                    TransportEventView::ListenerClosed { listener_id, reason },
                ) && listener_id == id && reason is Ok
            } else {
                &&& after.len() == listeners.len()
                &&& forall|j: int|
                    0 <= j < listeners.len() && j != k ==> #[trigger] after[j] == listeners[j]
                &&& after[k].id == id
                &&& if state.closing {
                    &&& step matches PollStepView::Ready(
                        TransportEventView::AddressExpired { listener_id, listen_addr },
                    ) && listener_id == id && is_endpoint(listen_addr, state.listener->0)
                    &&& after[k].state.closing && !after[k].state.announced
                    &&& after[k].state.listener == state.listener
                } else if state.binding {
                    &&& after[k].state == state
                    &&& step == (PollStepView::PollBind { at: k, id })
                } else {
                    &&& after[k].state.accepting
                    &&& same_but_accepting(state, after[k].state)
                    &&& step == (PollStepView::PollAccept { at: k, id, start: !state.accepting })
                }
            }
        }),
    decreases k - i,
{
    if i < k {
        lemma_poll_stops_at_the_first_with_something_to_do(listeners, i + 1, k);
    }
}

/// A poll that is carried on reports what there is to report of the listener
/// that was polled, under its own identifier; where there is nothing, it goes
/// on behind that listener. Either way that listener has its new state, and all
/// others are left alone before the poll goes on.
pub proof fn lemma_poll_carries_on_behind_what_was_polled(
    listeners: Seq<Listener>,
    at: int,
    state: ListenerState,
    event: ListenerEventView,
)
    requires
        0 <= at < listeners.len(),
    ensures
        ({
            let polled = listeners.update(at, Listener { id: listeners[at].id, state });
            &&& carry_on(listeners, at, state, Some(event)) == (
                polled,
                PollStepView::Ready(report(listeners[at].id, event)),
            )
            &&& carry_on(listeners, at, state, None) == scan(polled, at + 1)
        }),
{
}

/// Whether a poll in which operations come to `outcomes` may report `event` of
/// a listener. Every address is one that the host gave, and every failure is
/// the host's:
///   - a new address, the one that the host gave to the listener as it came up;
///   - a connection, on the address that the listener is up on, with the address
///     that the host gave for its peer, or the listener's own where it gave none;
///   - the expiry of the address that the listener is up on, once;
///   - the closing of a listener that has no address announced;
///   - a failure to come up, a denial as [`Error::AccessDenied`], or to accept.
pub open spec fn is_due(
    listener: Listener,
    outcomes: Outcomes,
    event: TransportEventView,
) -> bool {
    let id = listener.id;
    let state = listener.state;
    match event {
        TransportEventView::NewAddress { listener_id, listen_addr } => {
            &&& listener_id == id && !state.closing && state.binding
            &&& (outcomes.binds)(id) matches Poll::Ready(Ok(given)) && is_endpoint(
                listen_addr,
                given,
            )
        },
        TransportEventView::Incoming { listener_id, local_addr, send_back_addr } => {
            &&& listener_id == id && !state.closing
            &&& state.listener matches Some(local) && is_endpoint(local_addr, local) && (
            (outcomes.accepts)(id) matches Poll::Ready(Ok(known)) && match known {
                Some(peer) => is_endpoint(send_back_addr, peer),
                None => is_endpoint(send_back_addr, local),
            })
        },
        TransportEventView::AddressExpired { listener_id, listen_addr } => {
            &&& listener_id == id && state.closing && state.announced
            &&& state.listener matches Some(local) && is_endpoint(listen_addr, local)
        },
        TransportEventView::ListenerClosed { listener_id, reason } => {
            listener_id == id && state.closing && !state.announced && reason is Ok
        },
        TransportEventView::ListenerError { listener_id, error } => {
            &&& listener_id == id && !state.closing
            &&& if state.binding {
                (outcomes.binds)(id) matches Poll::Ready(Err(e)) && if e.kind
                    == ErrorKind::PermissionDenied {
                    error is AccessDenied
                } else {
                    error == ErrorView::Io(e)
                }
            } else {
                (outcomes.accepts)(id) matches Poll::Ready(Err(e)) && error == ErrorView::Io(e)
            }
        },
    }
}

/// What a poll reports is due of the first listener that has something to
/// report, and says what the host gave for that listener.
pub proof fn lemma_poll_reports_what_the_host_gave(
    listeners: Seq<Listener>,
    i: int,
    outcomes: Outcomes,
)
    requires
        0 <= i,
        listeners_wf(listeners),
    ensures
        whole_poll(listeners, i, outcomes).1 matches Some(event) ==> exists|k: int|
            {
                &&& i <= k < listeners.len()
                &&& is_due(#[trigger] listeners[k], outcomes, event)
                &&& forall|j: int| i <= j < k ==> quiet(#[trigger] listeners[j], outcomes)
            },
    decreases listeners.len() - i,
{
    if i < listeners.len() {
        let id = listeners[i].id;
        let (state, visit) = listeners[i].state.visited();
        let (after, reported) = match visit {
            VisitView::PollBind => state.bound((outcomes.binds)(id)),
            VisitView::PollAccept { .. } => state.accepted((outcomes.accepts)(id)),
            _ => (state, None),
        };
        let next = with_state(listeners, i, after);
        if let Some(event) = whole_poll(listeners, i, outcomes).1 {
            if visit is Report || reported is Some {
                assert(is_due(listeners[i], outcomes, event));
            } else {
                lemma_with_state(listeners, i, after);
                assert(visit is Skip ==> next =~= listeners);
                lemma_poll_reports_what_the_host_gave(next, i + 1, outcomes);
                let k = choose|k: int|
                    {
                        &&& i + 1 <= k < next.len()
                        &&& is_due(#[trigger] next[k], outcomes, event)
                        &&& forall|j: int| i + 1 <= j < k ==> quiet(#[trigger] next[j], outcomes)
                    };
                assert(next[k] == listeners[k]);
                assert forall|j: int| i <= j < k implies quiet(#[trigger] listeners[j], outcomes) by {
                    if j > i {
                        assert(quiet(next[j], outcomes));
                    }
                }
            }
        }
    }
}

/// What a transport reports keeps what it was made with.
pub proof fn lemma_transport_event_keeps_its_value(
    id: ListenerId,
    addr: Multiaddr,
    peer: Multiaddr,
    error: Error,
)
    ensures
        (TransportEvent::NewAddress { listener_id: id, listen_addr: addr })@ == (
        TransportEventView::NewAddress { listener_id: id, listen_addr: multiaddr_protocols(addr) }),
        (TransportEvent::AddressExpired { listener_id: id, listen_addr: addr })@ == (
        TransportEventView::AddressExpired {
            listener_id: id,
            listen_addr: multiaddr_protocols(addr),
        }),
        (TransportEvent::Incoming { listener_id: id, local_addr: addr, send_back_addr: peer })@ == (
        TransportEventView::Incoming {
            listener_id: id,
            local_addr: multiaddr_protocols(addr),
            send_back_addr: multiaddr_protocols(peer),
        }),
        (TransportEvent::ListenerClosed { listener_id: id, reason: Ok(()) })@ == (
        TransportEventView::ListenerClosed { listener_id: id, reason: Ok(()) }),
        (TransportEvent::ListenerClosed { listener_id: id, reason: Err(error) })@ == (
        TransportEventView::ListenerClosed { listener_id: id, reason: Err(error@) }),
        (TransportEvent::ListenerError { listener_id: id, error })@ == (
        TransportEventView::ListenerError { listener_id: id, error: error@ }),
{
}

/// What a poll comes to next keeps what it was made with; and the state that a
/// transport has at a place is that of the listener there.
pub proof fn lemma_step_keeps_its_value(
    event: TransportEvent,
    at: usize,
    id: ListenerId,
    start: bool,
    transport: WasiTcpTransport,
)
    ensures
        PollStep::Pending@ is Pending,
        PollStep::Ready(event)@ == PollStepView::Ready(event@),
        (PollStep::PollBind { at, id })@ == (PollStepView::PollBind { at: at as int, id }),
        (PollStep::PollAccept { at, id, start })@ == (PollStepView::PollAccept {
            at: at as int,
            id,
            start,
        }),
        transport.state_at(at as int) == transport.listeners()[at as int].state,
        transport.wf() <==> listeners_wf(transport.listeners()),
{
}

} // verus!
