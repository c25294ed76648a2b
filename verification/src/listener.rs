//! One listener: what is asked of the host for it, and what is reported of it,
//! from the request to listen until it is closed.

use vstd::prelude::*;

use crate::addr::SocketAddr;
use crate::error::{Error, ErrorKind, ErrorView, IoError, IoErrorView};
use crate::poll::Poll;
use crate::socket::{bind_error, io_result_view, SocketAction};
use crate::wasi::{
    error_code_text, std_sockaddr, wasi_io_err, wasi_io_error, wasi_sockaddr_to_std, ErrorCode,
    IpSocketAddress,
};

verus! {

// ── Accepting a connection ───────────────────────────────────────────────────

/// The host's reply to `accept`: a connection, with the reply to
/// `remote-address` on its socket, or an error code.
pub type AcceptReply = Result<Result<IpSocketAddress, ErrorCode>, ErrorCode>;

/// What to do after a reply to `accept`.
#[derive(Debug)]
pub enum AcceptStep {
    /// Wait until the socket is ready, then accept again.
    Wait,
    /// A connection was accepted, with the address of its peer if the host
    /// knows it; or accepting failed.
    Done(Result<Option<SocketAddr>, IoError>),
}

/// The value of an [`AcceptStep`].
pub enum AcceptStepView {
    Wait,
    Done(Result<Option<SocketAddr>, IoErrorView>),
}

impl View for AcceptStep {
    type V = AcceptStepView;

    open spec fn view(&self) -> AcceptStepView {
        match self {
            AcceptStep::Wait => AcceptStepView::Wait,
            AcceptStep::Done(res) => AcceptStepView::Done(io_result_view(*res)),
        }
    }
}

/// What a reply to `accept` leads to.
pub open spec fn accept_step(reply: AcceptReply) -> AcceptStepView {
    match reply {
        Ok(Ok(remote)) => AcceptStepView::Done(Ok(Some(std_sockaddr(remote)))),
        Ok(Err(_)) => AcceptStepView::Done(Ok(None)),
        Err(ErrorCode::WouldBlock) => AcceptStepView::Wait,
        Err(code) => AcceptStepView::Done(Err(wasi_io_error(code))),
    }
}

/// Takes the host's reply to `accept`.
pub fn accept_replied(reply: AcceptReply) -> (res: AcceptStep)
    ensures
        res@ == accept_step(reply),
{
    match reply {
        Ok(Ok(remote)) => AcceptStep::Done(Ok(Some(wasi_sockaddr_to_std(remote)))),
        Ok(Err(_)) => AcceptStep::Done(Ok(None)),
        Err(ErrorCode::WouldBlock) => AcceptStep::Wait,
        Err(code) => AcceptStep::Done(Err(wasi_io_err(code))),
    }
}

// ── The state of a listener ──────────────────────────────────────────────────

/// The state of one listener.
#[derive(Copy, Clone, Debug, PartialEq, Eq)]
pub struct ListenerState {
    /// The address that was asked for.
    pub bind_addr: SocketAddr,
    /// The address that the listener is bound to, once it is up.
    pub listener: Option<SocketAddr>,
    /// Whether bringing up the listener is in flight.
    pub binding: bool,
    /// Whether accepting a connection is in flight.
    pub accepting: bool,
    /// Whether the address was reported as new and not yet as expired.
    pub announced: bool,
    /// Whether the listener is to be closed.
    pub closing: bool,
}

/// Something to report of a listener.
#[derive(Debug)]
pub enum ListenerEvent {
    /// The listener is up, on this address.
    NewAddress(SocketAddr),
    /// The listener no longer listens on this address.
    AddressExpired(SocketAddr),
    /// A connection came in.
    Incoming { local_addr: SocketAddr, send_back_addr: SocketAddr },
    /// The listener could not be brought up, or a connection not accepted.
    Error(Error),
    /// The listener is closed. Nothing more will be reported of it.
    Closed,
}

/// The value of a [`ListenerEvent`].
pub enum ListenerEventView {
    NewAddress(SocketAddr),
    AddressExpired(SocketAddr),
    Incoming { local_addr: SocketAddr, send_back_addr: SocketAddr },
    Error(ErrorView),
    Closed,
}

impl View for ListenerEvent {
    type V = ListenerEventView;

    open spec fn view(&self) -> ListenerEventView {
        match self {
            ListenerEvent::NewAddress(addr) => ListenerEventView::NewAddress(*addr),
            ListenerEvent::AddressExpired(addr) => ListenerEventView::AddressExpired(*addr),
            ListenerEvent::Incoming { local_addr, send_back_addr } => ListenerEventView::Incoming {
                local_addr: *local_addr,
                send_back_addr: *send_back_addr,
            },
            ListenerEvent::Error(e) => ListenerEventView::Error(e@),
            ListenerEvent::Closed => ListenerEventView::Closed,
        }
    }
}

/// What a visit to a listener leads to.
#[derive(Debug)]
pub enum Visit {
    /// There is something to report. After [`ListenerEvent::Closed`], the
    /// listener is to be removed.
    Report(ListenerEvent),
    /// Poll bringing up the listener.
    PollBind,
    /// Poll accepting a connection; start it first if `start` is set.
    PollAccept { start: bool },
    /// There is nothing to do: the listener could not be brought up.
    Skip,
}

/// The value of a [`Visit`].
pub enum VisitView {
    Report(ListenerEventView),
    PollBind,
    PollAccept { start: bool },
    Skip,
}

impl View for Visit {
    type V = VisitView;

    open spec fn view(&self) -> VisitView {
        match self {
            Visit::Report(event) => VisitView::Report(event@),
            Visit::PollBind => VisitView::PollBind,
            Visit::PollAccept { start } => VisitView::PollAccept { start: *start },
            Visit::Skip => VisitView::Skip,
        }
    }
}

/// What came of polling the bringing up of a listener: its address, or an error.
pub type BindOutcome = Poll<Result<SocketAddr, IoError>>;

/// What came of polling the accepting of a connection: the address of its peer
/// if that is known, or an error.
pub type AcceptOutcome = Poll<Result<Option<SocketAddr>, IoError>>;

/// The value of a [`BindOutcome`].
pub type BindOutcomeView = Poll<Result<SocketAddr, IoErrorView>>;

/// The value of an [`AcceptOutcome`].
pub type AcceptOutcomeView = Poll<Result<Option<SocketAddr>, IoErrorView>>;

/// The value of an outcome.
pub open spec fn outcome_view<T>(outcome: Poll<Result<T, IoError>>) -> Poll<
    Result<T, IoErrorView>,
> {
    match outcome {
        Poll::Ready(res) => Poll::Ready(io_result_view(res)),
        Poll::Pending => Poll::Pending,
    }
}

/// How a listener that cannot be brought up is reported: a denial by the host
/// as [`Error::AccessDenied`], everything else as it is.
pub open spec fn bind_failure(e: IoErrorView) -> ErrorView {
    if e.kind == ErrorKind::PermissionDenied {
        ErrorView::AccessDenied
    } else {
        ErrorView::Io(e)
    }
}

impl ListenerState {
    /// A listener that was just asked for: it is being brought up.
    pub open spec fn fresh(bind_addr: SocketAddr) -> ListenerState {
        ListenerState {
            bind_addr,
            listener: None,
            binding: true,
            accepting: false,
            announced: false,
            closing: false,
        }
    }

    /// What holds of a listener at all times: its address is announced exactly
    /// while it is up, until it is closed; it is brought up before it is up,
    /// and accepts only while it is up.
    pub open spec fn wf(self) -> bool {
        &&& self.binding ==> self.listener is None
        &&& self.accepting ==> self.listener is Some
        &&& self.announced ==> self.listener is Some
        &&& self.listener is Some && !self.closing ==> self.announced
    }

    /// Whether an outcome of bringing up the listener is awaited.
    pub open spec fn awaits_bind(self) -> bool {
        self.binding && !self.closing
    }

    /// Whether an outcome of accepting is awaited.
    pub open spec fn awaits_accept(self) -> bool {
        self.accepting && !self.closing
    }

    /// The listener after the request to remove it.
    pub open spec fn removed(self) -> ListenerState {
        ListenerState { closing: true, ..self }
    }

    /// What visiting the listener does, and what it leads to.
    ///
    /// A listener to be closed gives up what is in flight. Its address is
    /// reported as expired if it was announced; on the next visit the listener
    /// is closed.
    pub open spec fn visited(self) -> (ListenerState, VisitView) {
        if self.closing {
            let idle = ListenerState { binding: false, accepting: false, ..self };
            if self.announced {
                (
                    ListenerState { announced: false, ..idle },
                    VisitView::Report(
                        ListenerEventView::AddressExpired(
                            match self.listener {
                                Some(addr) => addr,
                                None => self.bind_addr,
                            },
                        ),
                    ),
                )
            } else {
                (idle, VisitView::Report(ListenerEventView::Closed))
            }
        } else if self.binding {
            (self, VisitView::PollBind)
        } else if self.listener is None {
            (self, VisitView::Skip)
        } else {
            (
                ListenerState { accepting: true, ..self },
                VisitView::PollAccept { start: !self.accepting },
            )
        }
    }

    /// What an outcome of bringing up the listener does, and what there is to
    /// report then.
    pub open spec fn bound(self, outcome: BindOutcomeView) -> (
        ListenerState,
        Option<ListenerEventView>,
    ) {
        match outcome {
            Poll::Pending => (self, None),
            Poll::Ready(Err(e)) => (
                ListenerState { binding: false, ..self },
                Some(ListenerEventView::Error(bind_failure(e))),
            ),
            Poll::Ready(Ok(addr)) => (
                ListenerState { binding: false, listener: Some(addr), announced: true, ..self },
                Some(ListenerEventView::NewAddress(addr)),
            ),
        }
    }

    /// What an outcome of accepting does, and what there is to report then.
    pub open spec fn accepted(self, outcome: AcceptOutcomeView) -> (
        ListenerState,
        Option<ListenerEventView>,
    ) {
        match outcome {
            Poll::Pending => (self, None),
            Poll::Ready(Err(e)) => (
                ListenerState { accepting: false, ..self },
                Some(ListenerEventView::Error(ErrorView::Io(e))),
            ),
            Poll::Ready(Ok(peer)) => (
                ListenerState { accepting: false, ..self },
                Some(
                    ListenerEventView::Incoming {
                        local_addr: self.listener->0,
                        send_back_addr: match peer {
                            Some(addr) => addr,
                            None => self.listener->0,
                        },
                    },
                ),
            ),
        }
    }

    /// A listener that was just asked for.
    pub fn new(bind_addr: SocketAddr) -> (res: ListenerState)
        ensures
            res == ListenerState::fresh(bind_addr),
            res.wf(),
    {
        ListenerState {
            bind_addr,
            listener: None,
            binding: true,
            accepting: false,
            announced: false,
            closing: false,
        }
    }

    /// Visits the listener.
    pub fn visit(&mut self) -> (res: Visit)
        requires
            old(self).wf(),
        ensures
            (*final(self), res@) == old(self).visited(),
            final(self).wf(),
    {
        if self.closing {
            self.binding = false;
            self.accepting = false;
            if self.announced {
                let addr = match self.listener {
                    Some(addr) => addr,
                    None => self.bind_addr,
                };
                self.announced = false;
                return Visit::Report(ListenerEvent::AddressExpired(addr));
            }
            return Visit::Report(ListenerEvent::Closed);
        }
        if self.binding {
            return Visit::PollBind;
        }
        if self.listener.is_none() {
            return Visit::Skip;
        }
        let start = !self.accepting;
        self.accepting = true;
        Visit::PollAccept { start }
    }

    /// Takes what came of polling the bringing up of the listener.
    pub fn bind_polled(&mut self, outcome: BindOutcome) -> (res: Option<ListenerEvent>)
        requires
            old(self).wf(),
            old(self).awaits_bind(),
        ensures
            *final(self) == old(self).bound(outcome_view(outcome)).0,
            event_view(res) == old(self).bound(outcome_view(outcome)).1,
            final(self).wf(),
    {
        match outcome {
            Poll::Pending => None,
            Poll::Ready(Err(e)) => {
                self.binding = false;
                let error = match e.kind {
                    ErrorKind::PermissionDenied => Error::AccessDenied,
                    _ => Error::Io(e),
                };
                Some(ListenerEvent::Error(error))
            },
            Poll::Ready(Ok(addr)) => {
                self.listener = Some(addr);
                self.binding = false;
                self.announced = true;
                Some(ListenerEvent::NewAddress(addr))
            },
        }
    }

    /// Takes what came of polling the accepting of a connection.
    pub fn accept_polled(&mut self, outcome: AcceptOutcome) -> (res: Option<ListenerEvent>)
        requires
            old(self).wf(),
            old(self).awaits_accept(),
        ensures
            *final(self) == old(self).accepted(outcome_view(outcome)).0,
            event_view(res) == old(self).accepted(outcome_view(outcome)).1,
            final(self).wf(),
    {
        match outcome {
            Poll::Pending => None,
            Poll::Ready(Err(e)) => {
                self.accepting = false;
                Some(ListenerEvent::Error(Error::Io(e)))
            },
            Poll::Ready(Ok(peer)) => {
                self.accepting = false;
                let local_addr = self.listener.unwrap();
                let send_back_addr = match peer {
                    Some(addr) => addr,
                    None => local_addr,
                };
                Some(ListenerEvent::Incoming { local_addr, send_back_addr })
            },
        }
    }
}

/// The value of something that there may be to report.
pub open spec fn event_view(event: Option<ListenerEvent>) -> Option<ListenerEventView> {
    match event {
        Some(event) => Some(event@),
        None => None,
    }
}

// ── The life of a listener ───────────────────────────────────────────────────

/// Something that happens to a listener.
pub enum ListenerInput {
    /// It is visited.
    Visit,
    /// Polling its bringing up had this outcome.
    BindPolled(BindOutcomeView),
    /// Polling its accepting had this outcome.
    AcceptPolled(AcceptOutcomeView),
    /// It is asked to be removed.
    Remove,
}

impl ListenerState {
    /// Whether `input` can happen to the listener: an outcome comes only where
    /// it is awaited.
    pub open spec fn expects(self, input: ListenerInput) -> bool {
        match input {
            ListenerInput::BindPolled(_) => self.awaits_bind(),
            ListenerInput::AcceptPolled(_) => self.awaits_accept(),
            _ => true,
        }
    }

    /// What becomes of the listener, which is gone once it is closed, and what
    /// there is to report then.
    pub open spec fn fed(self, input: ListenerInput) -> (
        Option<ListenerState>,
        Option<ListenerEventView>,
    ) {
        match input {
            ListenerInput::Visit => match self.visited() {
                (_, VisitView::Report(ListenerEventView::Closed)) => (
                    None,
                    Some(ListenerEventView::Closed),
                ),
                (after, VisitView::Report(event)) => (Some(after), Some(event)),
                (after, _) => (Some(after), None),
            },
            ListenerInput::BindPolled(outcome) => (
                Some(self.bound(outcome).0),
                self.bound(outcome).1,
            ),
            ListenerInput::AcceptPolled(outcome) => (
                Some(self.accepted(outcome).0),
                self.accepted(outcome).1,
            ),
            ListenerInput::Remove => (Some(self.removed()), None),
        }
    }
}

/// The life of a listener from the state `start` on, to which `inputs` happen:
/// what becomes of it, and everything that is reported of it, in order.
pub open spec fn life(start: ListenerState, inputs: Seq<ListenerInput>) -> (
    Option<ListenerState>,
    Seq<ListenerEventView>,
)
    decreases inputs.len(),
{
    if inputs.len() == 0 {
        (Some(start), seq![])
    } else {
        match life(start, inputs.drop_last()) {
            (Some(state), events) => match state.fed(inputs.last()) {
                (after, Some(event)) => (after, events.push(event)),
                (after, None) => (after, events),
            },
            (None, events) => (None, events),
        }
    }
}

/// Whether `inputs` can happen to a listener in the state `start`, one after
/// the other.
pub open spec fn possible_life(start: ListenerState, inputs: Seq<ListenerInput>) -> bool
    decreases inputs.len(),
{
    inputs.len() > 0 ==> {
        &&& possible_life(start, inputs.drop_last())
        &&& life(start, inputs.drop_last()).0 matches Some(state) && state.expects(inputs.last())
    }
}

/// Whether the event at `i` may stand where it stands in everything that is
/// reported of a listener:
///   - a new address, as the first event;
///   - an incoming connection, on the address that was new, and not after it
///     expired;
///   - the expiry of the address that was new, as the last event but for the
///     closing;
///   - the closing, as the last event, and not while an address is announced;
///   - an error, not after the address expired; and if there was no new
///     address, as the only event but for the closing.
pub open spec fn in_order(events: Seq<ListenerEventView>, i: int) -> bool {
    match events[i] {
        ListenerEventView::NewAddress(_) => i == 0,
        ListenerEventView::Incoming { local_addr, .. } => {
            i > 0 && events[0] == ListenerEventView::NewAddress(local_addr)
        },
        ListenerEventView::AddressExpired(addr) => {
            &&& i > 0 && events[0] == ListenerEventView::NewAddress(addr)
            &&& i + 1 == events.len() || (i + 2 == events.len() && events[i + 1] is Closed)
        },
        ListenerEventView::Closed => {
            &&& i + 1 == events.len()
            &&& events[0] is NewAddress ==> events[i - 1] is AddressExpired
        },
        ListenerEventView::Error(_) => {
            ||| events[0] is NewAddress
            ||| i == 0 && (events.len() == 1 || (events.len() == 2 && events[1] is Closed))
        },
    }
}

/// Whether one of `inputs` is the request to remove the listener.
pub open spec fn removal_asked(inputs: Seq<ListenerInput>) -> bool {
    exists|k: int| 0 <= k < inputs.len() && #[trigger] inputs[k] is Remove
}

/// Whether one of the events tells that the listener is winding down: its
/// address expired, or it is closed.
pub open spec fn tells_of_the_end(events: Seq<ListenerEventView>) -> bool {
    exists|i: int|
        0 <= i < events.len() && (#[trigger] events[i] is AddressExpired || events[i] is Closed)
}

/// How the state of a listener reflects what was reported of it.
spec fn reflects(state: Option<ListenerState>, events: Seq<ListenerEventView>) -> bool {
    match state {
        None => events.len() > 0 && events.last() is Closed,
        Some(s) => {
            &&& s.wf()
            &&& forall|i: int| 0 <= i < events.len() ==> !(#[trigger] events[i] is Closed)
            &&& s.binding ==> events.len() == 0
            &&& s.listener is None ==> events.len() <= 1
            &&& s.listener is None ==> forall|i: int|
                0 <= i < events.len() ==> #[trigger] events[i] is Error
            &&& s.listener matches Some(addr) ==> {
                &&& events.len() > 0
                &&& events[0] == ListenerEventView::NewAddress(addr)
            }
            &&& s.announced ==> forall|i: int|
                0 <= i < events.len() ==> !(#[trigger] events[i] is AddressExpired)
            &&& s.listener is Some && !s.announced ==> events.last() is AddressExpired
        },
    }
}

/// The state keeps reflecting what was reported, and the reports keep their order.
proof fn lemma_life_step(bind_addr: SocketAddr, inputs: Seq<ListenerInput>)
    requires
        possible_life(ListenerState::fresh(bind_addr), inputs),
    ensures
        ({
            let (state, events) = life(ListenerState::fresh(bind_addr), inputs);
            reflects(state, events)
        }),
        forall|i: int|
            0 <= i < life(ListenerState::fresh(bind_addr), inputs).1.len() ==> #[trigger] in_order(
                life(ListenerState::fresh(bind_addr), inputs).1,
                i,
            ),
    decreases inputs.len(),
{
    if inputs.len() > 0 {
        lemma_life_step(bind_addr, inputs.drop_last());
        let (before, events) = life(ListenerState::fresh(bind_addr), inputs.drop_last());
        let state = before->0;
        let (after, event) = state.fed(inputs.last());
        if let Some(e) = event {
            let all = events.push(e);
            assert forall|i: int| 0 <= i < all.len() implies #[trigger] in_order(all, i) by {
                if i < events.len() {
                    assert(in_order(events, i));
                    assert(all[i] == events[i]);
                    assert(all[0] == events[0]);
                    assert(!(events[i] is Closed));
                    assert(i > 0 ==> all[i - 1] == events[i - 1]);
                } else {
                    assert(all[i] == e);
                    assert(events.len() > 0 ==> all[i - 1] == events.last());
                }
            }
        }
    }
}

/// A listener that is not asked to be removed stays, and nothing tells of its end.
proof fn lemma_no_end_without_removal(bind_addr: SocketAddr, inputs: Seq<ListenerInput>)
    requires
        possible_life(ListenerState::fresh(bind_addr), inputs),
    ensures
        !removal_asked(inputs) ==> {
            let (state, events) = life(ListenerState::fresh(bind_addr), inputs);
            state is Some && !state->0.closing && !tells_of_the_end(events)
        },
    decreases inputs.len(),
{
    if inputs.len() > 0 && !removal_asked(inputs) {
        let earlier = inputs.drop_last();
        assert(forall|k: int| 0 <= k < earlier.len() ==> earlier[k] == inputs[k]);
        assert(inputs.last() == inputs[inputs.len() - 1]);
        lemma_no_end_without_removal(bind_addr, earlier);
        let (before, events) = life(ListenerState::fresh(bind_addr), earlier);
        if let (_, Some(event)) = before->0.fed(inputs.last()) {
            let all = events.push(event);
            assert forall|i: int| 0 <= i < all.len() implies !(#[trigger] all[i] is AddressExpired
                || all[i] is Closed) by {
                assert(i < events.len() ==> all[i] == events[i]);
            }
        }
    }
}

/// Whatever happens to a listener, what is reported of it comes in order: its
/// address is announced at most once and first; connections come in only on
/// that address and only until it expires; it expires at most once, as the
/// address that was announced; and the closing comes last, after the expiry if
/// an address was announced. A listener that never comes up reports one error
/// at most before its closing. And no address expires and no listener is closed
/// that was not asked to be removed before.
pub proof fn lemma_listener_reports_in_order(bind_addr: SocketAddr, inputs: Seq<ListenerInput>)
    requires
        possible_life(ListenerState::fresh(bind_addr), inputs),
    ensures
        forall|i: int|
            0 <= i < life(ListenerState::fresh(bind_addr), inputs).1.len() ==> #[trigger] in_order(
                life(ListenerState::fresh(bind_addr), inputs).1,
                i,
            ),
        tells_of_the_end(life(ListenerState::fresh(bind_addr), inputs).1) ==> removal_asked(inputs),
{
    lemma_life_step(bind_addr, inputs);
    lemma_no_end_without_removal(bind_addr, inputs);
}

/// A listener is gone exactly when its closing was reported.
pub proof fn lemma_closed_listener_is_gone(bind_addr: SocketAddr, inputs: Seq<ListenerInput>)
    requires
        possible_life(ListenerState::fresh(bind_addr), inputs),
    ensures
        ({
            let (state, events) = life(ListenerState::fresh(bind_addr), inputs);
            state is None <==> exists|i: int|
                0 <= i < events.len() && #[trigger] events[i] is Closed
        }),
{
    lemma_life_step(bind_addr, inputs);
    let (state, events) = life(ListenerState::fresh(bind_addr), inputs);
    if state is None {
        assert(events[events.len() - 1] is Closed);
    }
}

/// A listener that is up, once it is asked to be removed, reports on its next
/// two visits that its address expired and that it is closed; nothing that was
/// in flight is awaited any more.
pub proof fn lemma_removal_expires_then_closes(state: ListenerState)
    requires
        state.wf(),
        state.announced,
    ensures
        state.removed().visited().1 == VisitView::Report(
            ListenerEventView::AddressExpired(state.listener->0),
        ),
        state.removed().visited().0.visited().1 == VisitView::Report(ListenerEventView::Closed),
        !state.removed().awaits_bind(),
        !state.removed().awaits_accept(),
{
}

/// A listener whose address was never announced is closed on the first visit
/// after it is asked to be removed.
pub proof fn lemma_removal_of_unannounced_closes(state: ListenerState)
    requires
        state.wf(),
        !state.announced,
    ensures
        state.removed().visited().1 == VisitView::Report(ListenerEventView::Closed),
{
}

/// What is left to be reported of a listener that is to be closed, whatever
/// happens to it: the expiry of its address if that is announced, and the
/// closing.
pub open spec fn winding_down(state: ListenerState) -> Seq<ListenerEventView> {
    if state.announced {
        seq![ListenerEventView::AddressExpired(state.listener->0), ListenerEventView::Closed]
    } else {
        seq![ListenerEventView::Closed]
    }
}

/// Whatever happens to a listener that is to be closed, nothing is reported of
/// it but what [`winding_down`] says, in this order; and it is gone exactly
/// when all of that was reported.
pub proof fn lemma_closing_listener_winds_down(start: ListenerState, inputs: Seq<ListenerInput>)
    requires
        start.wf(),
        start.closing,
        possible_life(start, inputs),
    ensures
        match life(start, inputs) {
            (Some(state), events) => {
                &&& state.wf()
                &&& state.closing
                &&& winding_down(start) == events + winding_down(state)
            },
            (None, events) => winding_down(start) == events,
        },
    decreases inputs.len(),
{
    if inputs.len() == 0 {
        assert(winding_down(start) =~= Seq::empty() + winding_down(start));
    } else {
        lemma_closing_listener_winds_down(start, inputs.drop_last());
        let (before, events) = life(start, inputs.drop_last());
        let state = before->0;
        match state.fed(inputs.last()) {
            (Some(after), Some(event)) => {
                assert(events + winding_down(state) =~= events.push(event) + winding_down(after));
            },
            (None, Some(event)) => {
                assert(events + winding_down(state) =~= events.push(event));
            },
            _ => {},
        }
    }
}

/// A listener that the host's network policy does not let bind is reported
/// with [`Error::AccessDenied`], and no other refusal by the host is.
pub proof fn lemma_denied_bind_is_access_denied(
    state: ListenerState,
    action: SocketAction,
    code: ErrorCode,
)
    ensures
        state.bound(Poll::Ready(Err(bind_error(action, code)))).1 == Some(
            ListenerEventView::Error(ErrorView::AccessDenied),
        ) <==> action is StartBind && code == ErrorCode::AccessDenied,
{
}

/// A listener that was just asked for is being brought up on the address that
/// was asked for; nothing else is known or in flight.
pub proof fn lemma_fresh_listener_is_being_brought_up(bind_addr: SocketAddr)
    ensures
        ListenerState::fresh(bind_addr).bind_addr == bind_addr,
        ListenerState::fresh(bind_addr).listener is None,
        ListenerState::fresh(bind_addr).binding,
        !ListenerState::fresh(bind_addr).accepting,
        !ListenerState::fresh(bind_addr).announced,
        !ListenerState::fresh(bind_addr).closing,
{
}

/// The address that the host gives to a listener is the one that is announced
/// and that the listener has from then on, whatever was asked for.
pub proof fn lemma_listener_announces_the_address_it_is_given(
    state: ListenerState,
    given: SocketAddr,
)
    ensures
        state.bound(Poll::Ready(Ok(given))).1 matches Some(ListenerEventView::NewAddress(announced))
            && announced == given,
        ({
            let after = state.bound(Poll::Ready(Ok(given))).0;
            &&& after.listener == Some(given)
            &&& after.announced && !after.binding
            &&& after.bind_addr == state.bind_addr && after.accepting == state.accepting
                && after.closing == state.closing
        }),
{
}

/// A listener that cannot be brought up reports why: a denial as
/// [`Error::AccessDenied`], every other failure as it is. It is not brought up
/// any more, and nothing else changes. Until there is an outcome, nothing
/// changes and nothing is reported.
pub proof fn lemma_listener_that_fails_says_why(state: ListenerState, e: IoErrorView)
    ensures
        e.kind == ErrorKind::PermissionDenied ==> state.bound(Poll::Ready(Err(e))).1 == Some(
            ListenerEventView::Error(ErrorView::AccessDenied),
        ),
        e.kind != ErrorKind::PermissionDenied ==> state.bound(Poll::Ready(Err(e))).1 == Some(
            ListenerEventView::Error(ErrorView::Io(e)),
        ),
        ({
            let after = state.bound(Poll::Ready(Err(e))).0;
            &&& !after.binding
            &&& after.bind_addr == state.bind_addr && after.listener == state.listener
            &&& after.accepting == state.accepting && after.announced == state.announced
                && after.closing == state.closing
        }),
        state.bound(Poll::Pending).0 == state,
        state.bound(Poll::Pending).1 is None,
{
}

/// A connection is reported with the address of the listener and with the
/// address of its peer, whatever that is; the listener's own address stands for
/// the peer's only where the host does not know that. Accepting is over then,
/// and nothing else changes.
pub proof fn lemma_connection_is_reported_with_its_peer(
    state: ListenerState,
    local: SocketAddr,
    peer: SocketAddr,
)
    requires
        state.listener == Some(local),
    ensures
        state.accepted(Poll::Ready(Ok(Some(peer)))).1 matches Some(
            ListenerEventView::Incoming { local_addr, send_back_addr },
        ) && local_addr == local && send_back_addr == peer,
        state.accepted(Poll::Ready(Ok(None))).1 matches Some(
            ListenerEventView::Incoming { local_addr, send_back_addr },
        ) && local_addr == local && send_back_addr == local,
        forall|known: Option<SocketAddr>|
            {
                let after = (#[trigger] state.accepted(Poll::Ready(Ok(known)))).0;
                &&& !after.accepting
                &&& after.listener == Some(local) && after.bind_addr == state.bind_addr
                &&& after.binding == state.binding && after.announced == state.announced
                    && after.closing == state.closing
            },
{
}

/// Accepting that fails is reported with the failure as it is, a denial too;
/// it is over then, and nothing else changes. Until there is an outcome,
/// nothing changes and nothing is reported.
pub proof fn lemma_accepting_that_fails_says_why(state: ListenerState, e: IoErrorView)
    ensures
        state.accepted(Poll::Ready(Err(e))).1 == Some(ListenerEventView::Error(ErrorView::Io(e))),
        ({
            let after = state.accepted(Poll::Ready(Err(e))).0;
            &&& !after.accepting
            &&& after.listener == state.listener && after.bind_addr == state.bind_addr
            &&& after.binding == state.binding && after.announced == state.announced
                && after.closing == state.closing
        }),
        state.accepted(Poll::Pending).0 == state,
        state.accepted(Poll::Pending).1 is None,
{
}

/// What a visit leads to depends on what is due. A listener to be closed gives
/// up what is in flight and reports the expiry of its address once, if that is
/// announced, and else its closing; one that is being brought up has that
/// polled; one that is up accepts, and starts to if it does not yet; and one
/// that could not be brought up is passed over. Nothing else changes.
pub proof fn lemma_visit_does_what_is_due(state: ListenerState)
    requires
        state.wf(),
    ensures
        ({
            let (after, visit) = state.visited();
            &&& after.bind_addr == state.bind_addr && after.listener == state.listener
                && after.closing == state.closing
            &&& if state.closing {
                &&& !after.binding && !after.accepting && !after.announced
                &&& if state.announced {
                    visit matches VisitView::Report(ListenerEventView::AddressExpired(addr))
                        && state.listener == Some(addr)
                } else {
                    visit == VisitView::Report(ListenerEventView::Closed)
                }
            } else {
                &&& after.binding == state.binding && after.announced == state.announced
                &&& if state.binding {
                    visit is PollBind && after.accepting == state.accepting
                } else if state.listener is Some {
                    after.accepting && visit == (VisitView::PollAccept { start: !state.accepting })
                } else {
                    visit is Skip && after.accepting == state.accepting
                }
            }
        }),
{
}

/// The request to remove a listener changes nothing of it but that it is to be
/// closed; an outcome is awaited of it exactly where something is in flight and
/// it is not to be closed.
pub proof fn lemma_removal_only_asks_for_closing(state: ListenerState)
    ensures
        state.removed().closing,
        state.removed().bind_addr == state.bind_addr,
        state.removed().listener == state.listener,
        state.removed().binding == state.binding,
        state.removed().accepting == state.accepting,
        state.removed().announced == state.announced,
        state.awaits_bind() <==> state.binding && !state.closing,
        state.awaits_accept() <==> state.accepting && !state.closing,
{
}

/// An accepted connection has the very address that the host knows its peer by,
/// and none where the host knows none; accepting waits exactly where it would
/// block, and every other error ends it with the text of its code.
pub proof fn lemma_accept_takes_the_peer_it_is_given(remote: IpSocketAddress, code: ErrorCode)
    ensures
        accept_step(Ok(Ok(remote))) matches AcceptStepView::Done(Ok(Some(peer))) && match (
            remote,
            peer,
        ) {
            (IpSocketAddress::Ipv4(h), SocketAddr::V4(a)) => {
                &&& a.port == h.port
                &&& (a.ip.0, a.ip.1, a.ip.2, a.ip.3) == h.address
            },
            (IpSocketAddress::Ipv6(h), SocketAddr::V6(a)) => {
                &&& a.port == h.port
                &&& (a.ip.0, a.ip.1, a.ip.2, a.ip.3, a.ip.4, a.ip.5, a.ip.6, a.ip.7) == h.address
                &&& a.flowinfo == 0 && a.scope_id == 0
            },
            _ => false,
        },
        accept_step(Ok(Err(code))) == AcceptStepView::Done(Ok(None)),
        accept_step(Err(code)) is Wait <==> code == ErrorCode::WouldBlock,
        code != ErrorCode::WouldBlock ==> (accept_step(Err(code)) matches AcceptStepView::Done(
            Err(e),
        ) && e.kind == ErrorKind::Other && e.message == error_code_text(code)),
{
}

/// Whether one of `inputs` is that the listener came up on `addr`.
pub open spec fn came_up_on(inputs: Seq<ListenerInput>, addr: SocketAddr) -> bool {
    exists|k: int|
        0 <= k < inputs.len() && #[trigger] inputs[k] == ListenerInput::BindPolled(
            Poll::Ready(Ok(addr)),
        )
}

/// Whether one of `inputs` is that a connection was accepted, of which the host
/// knows the peer by this address, if by any.
pub open spec fn accepted_from(inputs: Seq<ListenerInput>, peer: Option<SocketAddr>) -> bool {
    exists|k: int|
        0 <= k < inputs.len() && #[trigger] inputs[k] == ListenerInput::AcceptPolled(
            Poll::Ready(Ok(peer)),
        )
}

/// Whether an event tells what the host gave in one of `inputs`: an address
/// that is new or expires is one that the host gave to the listener, and so is
/// the local address of a connection, whose peer is the one that the host gave
/// for it.
pub open spec fn is_the_hosts(inputs: Seq<ListenerInput>, event: ListenerEventView) -> bool {
    match event {
        ListenerEventView::NewAddress(addr) => came_up_on(inputs, addr),
        ListenerEventView::AddressExpired(addr) => came_up_on(inputs, addr),
        ListenerEventView::Incoming { local_addr, send_back_addr } => {
            &&& came_up_on(inputs, local_addr)
            &&& accepted_from(inputs, Some(send_back_addr)) || (accepted_from(inputs, None)
                && send_back_addr == local_addr)
        },
        _ => true,
    }
}

/// Every address that is ever reported of a listener is one that the host gave,
/// never the one that was merely asked for: the address that it came up on, and
/// the addresses of the peers that connected to it.
pub proof fn lemma_reported_addresses_are_the_hosts(
    bind_addr: SocketAddr,
    inputs: Seq<ListenerInput>,
)
    requires
        possible_life(ListenerState::fresh(bind_addr), inputs),
    ensures
        ({
            let (state, events) = life(ListenerState::fresh(bind_addr), inputs);
            &&& forall|i: int|
                0 <= i < events.len() ==> is_the_hosts(inputs, #[trigger] events[i])
            &&& state matches Some(s) ==> (s.listener matches Some(addr) ==> came_up_on(
                inputs,
                addr,
            ))
        }),
    decreases inputs.len(),
{
    if inputs.len() > 0 {
        let earlier = inputs.drop_last();
        let last = inputs.last();
        lemma_reported_addresses_are_the_hosts(bind_addr, earlier);
        lemma_life_step(bind_addr, earlier);
        assert(forall|k: int| 0 <= k < earlier.len() ==> earlier[k] == inputs[k]);
        assert(inputs[inputs.len() - 1] == last);
        assert forall|addr: SocketAddr| came_up_on(earlier, addr) implies #[trigger] came_up_on(
            inputs,
            addr,
        ) by {
            let k = choose|k: int|
                0 <= k < earlier.len() && #[trigger] earlier[k] == ListenerInput::BindPolled(
                    Poll::Ready(Ok(addr)),
                );
            assert(inputs[k] == earlier[k]);
        }
        assert forall|peer: Option<SocketAddr>| accepted_from(earlier, peer) implies
            #[trigger] accepted_from(inputs, peer) by {
            let k = choose|k: int|
                0 <= k < earlier.len() && #[trigger] earlier[k] == ListenerInput::AcceptPolled(
                    Poll::Ready(Ok(peer)),
                );
            assert(inputs[k] == earlier[k]);
        }
        let (before, events) = life(ListenerState::fresh(bind_addr), earlier);
        let all = life(ListenerState::fresh(bind_addr), inputs).1;
        assert forall|i: int| 0 <= i < all.len() implies is_the_hosts(
            inputs,
            #[trigger] all[i],
        ) by {
            if i < events.len() {
                assert(all[i] == events[i]);
                assert(is_the_hosts(earlier, events[i]));
            } else {
                match last {
                    ListenerInput::BindPolled(Poll::Ready(Ok(addr))) => {
                        assert(came_up_on(inputs, addr));
                    },
                    ListenerInput::AcceptPolled(Poll::Ready(Ok(peer))) => {
                        assert(accepted_from(inputs, peer));
                        assert(came_up_on(inputs, before->0.listener->0));
                    },
                    _ => {
                        if before->0.listener is Some {
                            assert(came_up_on(inputs, before->0.listener->0));
                        }
                    },
                }
            }
        }
        if let ListenerInput::BindPolled(Poll::Ready(Ok(addr))) = last {
            assert(came_up_on(inputs, addr));
        } else if before->0.listener is Some {
            assert(came_up_on(inputs, before->0.listener->0));
        }
    }
}

/// What is reported of a listener and what is to be done for it keep what they
/// were made with.
pub proof fn lemma_event_keeps_its_value(
    addr: SocketAddr,
    peer: SocketAddr,
    error: Error,
    event: ListenerEvent,
    start: bool,
)
    ensures
        ListenerEvent::NewAddress(addr)@ == ListenerEventView::NewAddress(addr),
        ListenerEvent::AddressExpired(addr)@ == ListenerEventView::AddressExpired(addr),
        (ListenerEvent::Incoming { local_addr: addr, send_back_addr: peer })@ == (
        ListenerEventView::Incoming { local_addr: addr, send_back_addr: peer }),
        ListenerEvent::Error(error)@ == ListenerEventView::Error(error@),
        ListenerEvent::Closed@ is Closed,
        event_view(Some(event)) == Some(event@),
        event_view(None) is None,
        Visit::Report(event)@ == VisitView::Report(event@),
        Visit::PollBind@ is PollBind,
        (Visit::PollAccept { start })@ == (VisitView::PollAccept { start }),
        Visit::Skip@ is Skip,
{
}

/// The outcome of an operation, and what accepting comes to, keep what they were
/// made with.
pub proof fn lemma_outcome_keeps_its_value<T>(value: T, e: IoError, peer: Option<SocketAddr>)
    ensures
        outcome_view(Poll::Ready(Ok::<T, IoError>(value))) == Poll::Ready(
            Ok::<T, IoErrorView>(value),
        ),
        outcome_view(Poll::Ready(Err::<T, IoError>(e))) matches Poll::Ready(Err(seen)) && seen.kind
            == e.kind && seen.message == e.message@,
        outcome_view(Poll::<Result<T, IoError>>::Pending) is Pending,
        AcceptStep::Wait@ is Wait,
        AcceptStep::Done(Ok(peer))@ == AcceptStepView::Done(Ok(peer)),
        AcceptStep::Done(Err(e))@ == AcceptStepView::Done(Err(e@)),
{
}

} // verus!
