//! The operations that the transport asks of a TCP socket of the host, and the
//! two procedures made of them: bringing up a listener and making a connection.
//!
//! A procedure says with `action` which operation comes next. Whoever drives
//! it performs the operation and hands back the host's reply, until the
//! procedure gives its result.

use vstd::prelude::*;

use crate::addr::SocketAddr;
use crate::error::{Error, ErrorKind, ErrorView, IoError, IoErrorView};
use crate::wasi::{
    address_family, error_code_text, is_host_form, sockaddr_to_wasi, std_sockaddr, wasi_family,
    wasi_io_err, wasi_io_error, wasi_sockaddr, wasi_sockaddr_to_std, ErrorCode, IpAddressFamily,
    IpSocketAddress,
};

verus! {

/// One operation on a TCP socket.
#[derive(Copy, Clone, Debug)]
pub enum SocketAction {
    /// `create-tcp-socket`
    Create(IpAddressFamily),
    /// `set-listen-backlog-size`
    SetListenBacklogSize(u64),
    /// `set-keep-alive-enabled`, with `true`
    EnableKeepAlive,
    /// `set-keep-alive-idle-time`, in nanoseconds
    SetKeepAliveIdleTime(u64),
    /// `start-bind`
    StartBind(IpSocketAddress),
    /// `finish-bind`
    FinishBind,
    /// `start-listen`
    StartListen,
    /// `finish-listen`
    FinishListen,
    /// `local-address`
    LocalAddress,
    /// `start-connect`
    StartConnect(IpSocketAddress),
    /// `finish-connect`
    FinishConnect,
    /// Wait until the socket is ready.
    Wait,
    /// Nothing is left to do.
    Stop,
}

/// What the host replies to an operation that gives no value.
pub type SocketReply = Result<(), ErrorCode>;

impl SocketAction {
    /// Whether a reply to this operation changes nothing: options are set on a
    /// best-effort basis, and waiting gives no answer.
    pub open spec fn ignores_reply(self) -> bool {
        self is SetListenBacklogSize || self is EnableKeepAlive || self is SetKeepAliveIdleTime
            || self is Wait
    }

    /// Tells whether a reply to this operation changes nothing.
    fn is_reply_ignored(self) -> (res: bool)
        ensures
            res == self.ignores_reply(),
    {
        match self {
            SocketAction::SetListenBacklogSize(_) => true,
            SocketAction::EnableKeepAlive => true,
            SocketAction::SetKeepAliveIdleTime(_) => true,
            SocketAction::Wait => true,
            _ => false,
        }
    }
}

/// A list of socket operations, and how many of them are behind.
#[derive(Debug)]
pub struct Procedure {
    pub actions: Vec<SocketAction>,
    pub position: usize,
}

impl Procedure {
    /// Whether nothing is left to do.
    pub open spec fn is_over(self) -> bool {
        self.position >= self.actions@.len()
    }

    /// The operation that is next.
    pub open spec fn next_action(self) -> SocketAction {
        if self.is_over() {
            SocketAction::Stop
        } else {
            self.actions@[self.position as int]
        }
    }

    /// The operations that are ahead.
    pub open spec fn remaining(self) -> Seq<SocketAction> {
        self.actions@.skip(self.position as int)
    }

    /// The procedure with one more operation behind it.
    pub open spec fn advanced(self, after: Procedure) -> bool {
        after.actions@ == self.actions@ && after.position == self.position + 1
    }

    /// The procedure broken off.
    pub open spec fn stopped(self, after: Procedure) -> bool {
        after.actions@ == self.actions@ && after.is_over()
    }

    /// The error code that breaks the procedure off, if a reply to the next
    /// operation does: any, unless the operation ignores its reply.
    pub open spec fn broken_by(self, reply: SocketReply) -> Option<ErrorCode> {
        match reply {
            Err(code) if !self.next_action().ignores_reply() => Some(code),
            _ => None,
        }
    }

    /// How a reply to the next operation moves the procedure on.
    pub open spec fn step(self, reply: SocketReply, after: Procedure) -> bool {
        if self.broken_by(reply) is Some {
            self.stopped(after)
        } else {
            self.advanced(after)
        }
    }

    /// The operation to perform next.
    pub fn action(&self) -> (res: SocketAction)
        ensures
            res == self.next_action(),
    {
        if self.position < self.actions.len() {
            self.actions[self.position]
        } else {
            SocketAction::Stop
        }
    }

    /// Takes the reply to the operation that was next, and hands back the
    /// error code that breaks the procedure off, if it does.
    fn replied(&mut self, reply: SocketReply) -> (res: Option<ErrorCode>)
        requires
            !old(self).is_over(),
        ensures
            old(self).step(reply, *final(self)),
            res == old(self).broken_by(reply),
    {
        let len: usize = self.actions.len();
        let action = self.actions[self.position];
        if let Err(code) = reply {
            if !action.is_reply_ignored() {
                self.position = len;
                return Some(code);
            }
        }
        assert(self.position < len);
        self.position = self.position + 1;
        None
    }
}

/// The operations that turn keep-alive on, where it is asked for.
pub open spec fn keep_alive_actions(keep_alive: Option<u64>) -> Seq<SocketAction> {
    match keep_alive {
        Some(nanos) => seq![
            SocketAction::EnableKeepAlive,
            SocketAction::SetKeepAliveIdleTime(nanos),
        ],
        None => seq![],
    }
}

/// Appends the operations that turn keep-alive on.
fn push_keep_alive(actions: &mut Vec<SocketAction>, keep_alive: Option<u64>)
    ensures
        final(actions)@ == old(actions)@ + keep_alive_actions(keep_alive),
{
    if let Some(nanos) = keep_alive {
        actions.push(SocketAction::EnableKeepAlive);
        actions.push(SocketAction::SetKeepAliveIdleTime(nanos));
    }
    assert(actions@ =~= old(actions)@ + keep_alive_actions(keep_alive));
}

// ── Bringing up a listener ───────────────────────────────────────────────────

/// A listener that is being brought up.
#[derive(Debug)]
pub struct Bind {
    pub procedure: Procedure,
}

/// The operations that bring up a listener on `addr`, in order. Accepted
/// sockets inherit keep-alive from the listener.
pub open spec fn bind_actions(
    addr: SocketAddr,
    listen_backlog: u32,
    keep_alive: Option<u64>,
) -> Seq<SocketAction> {
    seq![
        SocketAction::Create(wasi_family(addr)),
        SocketAction::SetListenBacklogSize(listen_backlog as u64),
    ] + keep_alive_actions(keep_alive) + seq![
        SocketAction::StartBind(wasi_sockaddr(addr)),
        SocketAction::Wait,
        SocketAction::FinishBind,
        SocketAction::StartListen,
        SocketAction::Wait,
        SocketAction::FinishListen,
        SocketAction::LocalAddress,
    ]
}

/// The failure of a listener whose operation the host refuses with `code`.
pub open spec fn bind_error(action: SocketAction, code: ErrorCode) -> IoErrorView {
    if action is StartBind && code == ErrorCode::AccessDenied {
        IoErrorView { kind: ErrorKind::PermissionDenied, message: "network access denied"@ }
    } else {
        wasi_io_error(code)
    }
}

/// The value of a result of bringing up a listener or of accepting.
pub open spec fn io_result_view<T>(res: Result<T, IoError>) -> Result<T, IoErrorView> {
    match res {
        Ok(value) => Ok(value),
        Err(e) => Err(e@),
    }
}

impl Bind {
    /// Begins to bring up a listener on `addr`.
    pub fn new(addr: SocketAddr, listen_backlog: u32, keep_alive: Option<u64>) -> (res: Bind)
        ensures
            res.procedure.actions@ == bind_actions(addr, listen_backlog, keep_alive),
            res.procedure.position == 0,
    {
        let mut actions: Vec<SocketAction> = Vec::new();
        actions.push(SocketAction::Create(address_family(addr)));
        actions.push(SocketAction::SetListenBacklogSize(listen_backlog as u64));
        push_keep_alive(&mut actions, keep_alive);
        actions.push(SocketAction::StartBind(sockaddr_to_wasi(addr)));
        actions.push(SocketAction::Wait);
        actions.push(SocketAction::FinishBind);
        actions.push(SocketAction::StartListen);
        actions.push(SocketAction::Wait);
        actions.push(SocketAction::FinishListen);
        actions.push(SocketAction::LocalAddress);
        assert(actions@ =~= bind_actions(addr, listen_backlog, keep_alive));
        Bind { procedure: Procedure { actions, position: 0 } }
    }

    /// The operation to perform next.
    pub fn action(&self) -> (res: SocketAction)
        ensures
            res == self.procedure.next_action(),
    {
        self.procedure.action()
    }

    /// Takes the reply to the operation that was next. Gives the failure of
    /// the listener where the reply breaks it off.
    pub fn replied(&mut self, reply: SocketReply) -> (res: Option<IoError>)
        requires
            !old(self).procedure.is_over(),
        ensures
            old(self).procedure.step(reply, final(self).procedure),
            match old(self).procedure.broken_by(reply) {
                Some(code) => res matches Some(e) && e@ == bind_error(
                    old(self).procedure.next_action(),
                    code,
                ),
                None => res is None,
            },
    {
        let action = self.procedure.action();
        match self.procedure.replied(reply) {
            None => None,
            Some(code) => Some(bind_failed(action, code)),
        }
    }

    /// Takes the reply to [`SocketAction::LocalAddress`], the last operation:
    /// the address that the listener is bound to, with the port that the host
    /// chose where none was asked for.
    pub fn located(&mut self, reply: Result<IpSocketAddress, ErrorCode>) -> (res: Result<
        SocketAddr,
        IoError,
    >)
        requires
            old(self).procedure.next_action() is LocalAddress,
        ensures
            old(self).procedure.stopped(final(self).procedure),
            io_result_view(res) == match reply {
                Ok(addr) => Ok::<SocketAddr, IoErrorView>(std_sockaddr(addr)),
                Err(code) => Err::<SocketAddr, IoErrorView>(wasi_io_error(code)),
            },
    {
        self.procedure.position = self.procedure.actions.len();
        match reply {
            Ok(addr) => Ok(wasi_sockaddr_to_std(addr)),
            Err(code) => Err(wasi_io_err(code)),
        }
    }
}

/// The failure of a listener whose operation the host refuses with `code`.
fn bind_failed(action: SocketAction, code: ErrorCode) -> (res: IoError)
    ensures
        res@ == bind_error(action, code),
{
    match (action, code) {
        (SocketAction::StartBind(_), ErrorCode::AccessDenied) => IoError::new(
            ErrorKind::PermissionDenied,
            "network access denied",
        ),
        _ => wasi_io_err(code),
    }
}

// ── Making a connection ──────────────────────────────────────────────────────

/// A connection that is being made.
#[derive(Debug)]
pub struct Connect {
    /// The remote address.
    pub addr: SocketAddr,
    pub procedure: Procedure,
}

/// The operations that connect to `addr`, in order.
pub open spec fn connect_actions(addr: SocketAddr, keep_alive: Option<u64>) -> Seq<SocketAction> {
    seq![SocketAction::Create(IpAddressFamily::Ipv4)] + keep_alive_actions(keep_alive) + seq![
        SocketAction::StartConnect(wasi_sockaddr(addr)),
        SocketAction::Wait,
        SocketAction::FinishConnect,
    ]
}

/// The failure of a connection whose operation the host refuses with `code`.
pub open spec fn connect_error(code: ErrorCode) -> ErrorView {
    if code == ErrorCode::AccessDenied {
        ErrorView::AccessDenied
    } else {
        ErrorView::Io(wasi_io_error(code))
    }
}

/// The failure of every connection to an IPv6 address.
pub open spec fn ipv6_error() -> ErrorView {
    ErrorView::Io(
        IoErrorView {
            kind: ErrorKind::Unsupported,
            message: "IPv6 TCP is not yet supported (wstd limitation)"@,
        },
    )
}

impl Connect {
    /// Begins to connect to `addr`. Only IPv4 addresses can be connected to.
    pub fn new(addr: SocketAddr, keep_alive: Option<u64>) -> (res: Result<Connect, Error>)
        ensures
            match res {
                Ok(connect) => {
                    &&& addr is V4
                    &&& connect.addr == addr
                    &&& connect.procedure.actions@ == connect_actions(addr, keep_alive)
                    &&& connect.procedure.position == 0
                },
                Err(e) => addr is V6 && e@ == ipv6_error(),
            },
    {
        if addr.is_ipv6() {
            return Err(
                Error::Io(
                    IoError::new(
                        ErrorKind::Unsupported,
                        "IPv6 TCP is not yet supported (wstd limitation)",
                    ),
                ),
            );
        }
        let mut actions: Vec<SocketAction> = Vec::new();
        actions.push(SocketAction::Create(IpAddressFamily::Ipv4));
        push_keep_alive(&mut actions, keep_alive);
        actions.push(SocketAction::StartConnect(sockaddr_to_wasi(addr)));
        actions.push(SocketAction::Wait);
        actions.push(SocketAction::FinishConnect);
        assert(actions@ =~= connect_actions(addr, keep_alive));
        Ok(Connect { addr, procedure: Procedure { actions, position: 0 } })
    }

    /// The operation to perform next. Once it is [`SocketAction::Stop`], the
    /// connection is made.
    pub fn action(&self) -> (res: SocketAction)
        ensures
            res == self.procedure.next_action(),
    {
        self.procedure.action()
    }

    /// Takes the reply to the operation that was next. Gives the failure of
    /// the connection where the reply breaks it off.
    pub fn replied(&mut self, reply: SocketReply) -> (res: Option<Error>)
        requires
            !old(self).procedure.is_over(),
        ensures
            final(self).addr == old(self).addr,
            old(self).procedure.step(reply, final(self).procedure),
            match old(self).procedure.broken_by(reply) {
                Some(code) => res matches Some(e) && e@ == connect_error(code),
                None => res is None,
            },
    {
        match self.procedure.replied(reply) {
            None => None,
            Some(ErrorCode::AccessDenied) => Some(Error::AccessDenied),
            Some(code) => Some(Error::Io(wasi_io_err(code))),
        }
    }
}

// ── Laws ─────────────────────────────────────────────────────────────────────

/// The first error code that breaks off a procedure which gets these replies
/// one after the other, with the operation that it was the reply to; `None`
/// where no reply does.
pub open spec fn breaking_reply(actions: Seq<SocketAction>, replies: Seq<SocketReply>) -> Option<
    (SocketAction, ErrorCode),
>
    decreases actions.len(),
{
    if actions.len() == 0 || replies.len() == 0 {
        None
    } else {
        match replies.first() {
            Err(code) if !actions.first().ignores_reply() => Some((actions.first(), code)),
            _ => breaking_reply(actions.drop_first(), replies.drop_first()),
        }
    }
}

/// Driving a procedure reply by reply is what [`breaking_reply`] says: a reply
/// breaks it off, or leaves it to the replies that follow.
pub proof fn lemma_procedure_runs_its_actions(
    before: Procedure,
    reply: SocketReply,
    after: Procedure,
    later: Seq<SocketReply>,
)
    requires
        !before.is_over(),
        before.step(reply, after),
    ensures
        breaking_reply(before.remaining(), seq![reply] + later) == match before.broken_by(reply) {
            Some(code) => Some((before.next_action(), code)),
            None => breaking_reply(after.remaining(), later),
        },
{
    let replies = seq![reply] + later;
    assert(replies.first() == reply);
    assert(replies.drop_first() =~= later);
    assert(before.remaining().first() == before.next_action());
    if before.broken_by(reply) is None {
        assert(before.remaining().drop_first() =~= after.remaining());
    }
}

/// The first refusal of an operation whose reply counts decides, whatever the
/// replies to options and waits before it were.
pub proof fn lemma_first_refusal_breaks_off(
    actions: Seq<SocketAction>,
    replies: Seq<SocketReply>,
    k: int,
    code: ErrorCode,
)
    requires
        0 <= k < actions.len(),
        k < replies.len(),
        !actions[k].ignores_reply(),
        replies[k] == Err::<(), ErrorCode>(code),
        forall|j: int| 0 <= j < k ==> #[trigger] replies[j] is Ok || actions[j].ignores_reply(),
    ensures
        breaking_reply(actions, replies) == Some((actions[k], code)),
    decreases k,
{
    assert(actions.first() == actions[0] && replies.first() == replies[0]);
    if k > 0 {
        let actions1 = actions.drop_first();
        let replies1 = replies.drop_first();
        assert forall|j: int| 0 <= j < k - 1 implies #[trigger] replies1[j] is Ok
            || actions1[j].ignores_reply() by {
            assert(replies1[j] == replies[j + 1]);
        }
        lemma_first_refusal_breaks_off(actions1, replies1, k - 1, code);
    }
}

/// A host that refuses no operation whose reply counts breaks nothing off,
/// even if it refuses every option.
pub proof fn lemma_best_effort_breaks_nothing(
    actions: Seq<SocketAction>,
    replies: Seq<SocketReply>,
)
    requires
        forall|j: int|
            0 <= j < actions.len() && j < replies.len() ==> #[trigger] replies[j] is Ok
                || actions[j].ignores_reply(),
    ensures
        breaking_reply(actions, replies) is None,
    decreases actions.len(),
{
    if actions.len() > 0 && replies.len() > 0 {
        assert(actions.first() == actions[0] && replies.first() == replies[0]);
        let actions1 = actions.drop_first();
        let replies1 = replies.drop_first();
        assert forall|j: int| 0 <= j < actions1.len() && j < replies1.len() implies
            #[trigger] replies1[j] is Ok || actions1[j].ignores_reply() by {
            assert(replies1[j] == replies[j + 1]);
        }
        lemma_best_effort_breaks_nothing(actions1, replies1);
    }
}

/// Every dial to an IPv4 address on a host that denies access fails with
/// [`Error::AccessDenied`], whichever operation the denial comes at.
pub proof fn lemma_denied_connection_is_access_denied(
    addr: SocketAddr,
    keep_alive: Option<u64>,
    replies: Seq<SocketReply>,
    k: int,
)
    requires
        0 <= k < connect_actions(addr, keep_alive).len(),
        k < replies.len(),
        !connect_actions(addr, keep_alive)[k].ignores_reply(),
        replies[k] == Err::<(), ErrorCode>(ErrorCode::AccessDenied),
        forall|j: int|
            0 <= j < k ==> #[trigger] replies[j] is Ok || connect_actions(
                addr,
                keep_alive,
            )[j].ignores_reply(),
    ensures
        breaking_reply(connect_actions(addr, keep_alive), replies) matches Some((_, code))
            && connect_error(code) == ErrorView::AccessDenied,
{
    lemma_first_refusal_breaks_off(
        connect_actions(addr, keep_alive),
        replies,
        k,
        ErrorCode::AccessDenied,
    );
}

/// Keep-alive that is not asked for is never touched; where it is asked for,
/// it is on, with its idle time, before the socket listens or connects.
pub proof fn lemma_keep_alive_is_set_first(addr: SocketAddr, listen_backlog: u32, nanos: u64)
    ensures
        ({
            let bind = bind_actions(addr, listen_backlog, Some(nanos));
            &&& bind[2] is EnableKeepAlive
            &&& bind[3] == SocketAction::SetKeepAliveIdleTime(nanos)
            &&& bind[4] is StartBind
        }),
        ({
            let connect = connect_actions(addr, Some(nanos));
            &&& connect[1] is EnableKeepAlive
            &&& connect[2] == SocketAction::SetKeepAliveIdleTime(nanos)
            &&& connect[3] is StartConnect
        }),
        forall|i: int|
            0 <= i < bind_actions(addr, listen_backlog, None).len() ==> {
                let action = #[trigger] bind_actions(addr, listen_backlog, None)[i];
                !(action is EnableKeepAlive) && !(action is SetKeepAliveIdleTime)
            },
        forall|i: int|
            0 <= i < connect_actions(addr, None).len() ==> {
                let action = #[trigger] connect_actions(addr, None)[i];
                !(action is EnableKeepAlive) && !(action is SetKeepAliveIdleTime)
            },
{
}

/// The operations that make a connection to `addr`, with or without keep-alive:
/// a socket is created first, for IPv4; exactly one `start-connect` is among
/// them, and it goes to `addr` itself; the socket is then waited for, and the
/// connection finished; and there is nothing else but turning keep-alive on,
/// before it connects.
pub proof fn lemma_connection_goes_to_its_address(addr: SocketAddr, keep_alive: Option<u64>)
    ensures
        ({
            let actions = connect_actions(addr, keep_alive);
            let k = actions.len() - 3;
            &&& actions[0] == SocketAction::Create(IpAddressFamily::Ipv4)
            &&& match keep_alive {
                None => k == 1,
                Some(nanos) => k == 3 && actions[1] is EnableKeepAlive && actions[2]
                    == SocketAction::SetKeepAliveIdleTime(nanos),
            }
            &&& actions[k] matches SocketAction::StartConnect(remote) && is_host_form(remote, addr)
            &&& actions[k + 1] is Wait
            &&& actions[k + 2] is FinishConnect
            &&& forall|i: int|
                0 <= i < actions.len() && #[trigger] actions[i] is StartConnect ==> i == k
        }),
{
}

/// The operations that bring up a listener on `addr`, with or without
/// keep-alive: a socket of the family of `addr` is created first, and gets the
/// backlog asked for; exactly one `start-bind` is among them, and it goes to
/// `addr` itself; the socket is bound before it listens, each after a wait; the
/// address that it is bound to is asked for last; and there is nothing else but
/// turning keep-alive on, before it is bound.
pub proof fn lemma_listener_binds_its_address(
    addr: SocketAddr,
    listen_backlog: u32,
    keep_alive: Option<u64>,
)
    ensures
        ({
            let actions = bind_actions(addr, listen_backlog, keep_alive);
            let k = actions.len() - 7;
            &&& actions[0] matches SocketAction::Create(family) && (family == IpAddressFamily::Ipv4
                <==> addr is V4)
            &&& actions[1] matches SocketAction::SetListenBacklogSize(size) && size
                == listen_backlog
            &&& match keep_alive {
                None => k == 2,
                Some(nanos) => k == 4 && actions[2] is EnableKeepAlive && actions[3]
                    == SocketAction::SetKeepAliveIdleTime(nanos),
            }
            &&& actions[k] matches SocketAction::StartBind(local) && is_host_form(local, addr)
            &&& actions[k + 1] is Wait
            &&& actions[k + 2] is FinishBind
            &&& actions[k + 3] is StartListen
            &&& actions[k + 4] is Wait
            &&& actions[k + 5] is FinishListen
            &&& actions[k + 6] is LocalAddress
            &&& forall|i: int|
                0 <= i < actions.len() && #[trigger] actions[i] is StartBind ==> i == k
        }),
{
}

/// The operations of a procedure are performed in their order, one after the
/// other: the next one is the one behind those that are done, until none is
/// left.
pub proof fn lemma_procedure_is_performed_in_order(procedure: Procedure)
    ensures
        procedure.position < procedure.actions@.len() ==> !procedure.is_over()
            && procedure.next_action() == procedure.actions@[procedure.position as int],
        procedure.position >= procedure.actions@.len() ==> procedure.is_over()
            && procedure.next_action() is Stop,
{
}

/// A reply moves a procedure on by exactly one operation, unless the host
/// refuses an operation that is neither an option nor a wait: then its error
/// code breaks the procedure off, and no operation is left. The operations
/// themselves never change.
pub proof fn lemma_reply_moves_on_or_breaks_off(
    before: Procedure,
    reply: SocketReply,
    after: Procedure,
)
    requires
        before.step(reply, after),
    ensures
        after.actions@ == before.actions@,
        match reply {
            Ok(_) => before.broken_by(reply) is None && after.position == before.position + 1,
            Err(code) => {
                if before.next_action() is SetListenBacklogSize || before.next_action()
                    is EnableKeepAlive || before.next_action() is SetKeepAliveIdleTime
                    || before.next_action() is Wait {
                    before.broken_by(reply) is None && after.position == before.position + 1
                } else {
                    before.broken_by(reply) == Some(code) && after.position >= after.actions@.len()
                }
            },
        },
{
}

/// How the host's refusals are told: a denial of `start-bind` as a denied
/// permission, a denial of any operation that makes a connection as
/// [`Error::AccessDenied`], and everything else by the text of its code.
pub proof fn lemma_refusals_say_why(action: SocketAction, code: ErrorCode)
    ensures
        action is StartBind && code == ErrorCode::AccessDenied ==> bind_error(action, code).kind
            == ErrorKind::PermissionDenied && bind_error(action, code).message
            == "network access denied"@,
        !(action is StartBind && code == ErrorCode::AccessDenied) ==> bind_error(action, code).kind
            == ErrorKind::Other && bind_error(action, code).message == error_code_text(code),
        code == ErrorCode::AccessDenied ==> connect_error(code) is AccessDenied,
        code != ErrorCode::AccessDenied ==> (connect_error(code) matches ErrorView::Io(e) && e.kind
            == ErrorKind::Other && e.message == error_code_text(code)),
        ipv6_error() matches ErrorView::Io(e) && e.kind == ErrorKind::Unsupported && e.message
            == "IPv6 TCP is not yet supported (wstd limitation)"@,
{
}

/// A result keeps the value or the failure that it was made with.
pub proof fn lemma_result_keeps_its_value<T>(value: T, e: IoError)
    ensures
        io_result_view(Ok::<T, IoError>(value)) == Ok::<T, IoErrorView>(value),
        io_result_view(Err::<T, IoError>(e)) matches Err(seen) && seen.kind == e.kind
            && seen.message == e.message@,
{
}

} // verus!
