//! Name lookup: what each answer of `wasi:sockets/ip-name-lookup` leads to.
//!
//! A lookup starts with the host name. The host then gives one answer after
//! the other until [`Lookup::answered`] says that the lookup is done.

use vstd::prelude::*;

use crate::addr::{socket_addr, SocketAddr};
use crate::error::{Error, ErrorKind, ErrorView, IoError, IoErrorView};
use crate::multiaddr::DnsFamily;
use crate::wasi::{error_code_debug, error_code_text, std_ip, wasi_ip_to_std, ErrorCode, IpAddress};

verus! {

/// A lookup of `host` for a connection to `port`, for addresses of `family`.
#[derive(Debug)]
pub struct Lookup {
    pub host: String,
    pub port: u16,
    pub family: DnsFamily,
}

/// The value of a [`Lookup`].
pub struct LookupView {
    pub host: Seq<char>,
    pub port: u16,
    pub family: DnsFamily,
}

impl View for Lookup {
    type V = LookupView;

    open spec fn view(&self) -> LookupView {
        LookupView { host: self.host@, port: self.port, family: self.family }
    }
}

/// What to do after an answer.
#[derive(Debug)]
pub enum LookupStep {
    /// Ask for the next answer.
    Next,
    /// Wait until there may be an answer, then ask for it.
    Wait,
    /// The lookup is over.
    Done(Result<SocketAddr, Error>),
}

/// The value of a [`LookupStep`].
pub enum LookupStepView {
    Next,
    Wait,
    Done(Result<SocketAddr, ErrorView>),
}

/// The value of a result of a lookup or a dial.
pub open spec fn result_view(res: Result<SocketAddr, Error>) -> Result<SocketAddr, ErrorView> {
    match res {
        Ok(addr) => Ok(addr),
        Err(e) => Err(e@),
    }
}

impl View for LookupStep {
    type V = LookupStepView;

    open spec fn view(&self) -> LookupStepView {
        match self {
            LookupStep::Next => LookupStepView::Next,
            LookupStep::Wait => LookupStepView::Wait,
            LookupStep::Done(res) => LookupStepView::Done(result_view(*res)),
        }
    }
}

/// One answer of the host: an address, the end of the list, or an error code.
pub type LookupAnswer = Result<Option<IpAddress>, ErrorCode>;

/// A failure that is told by its message alone.
pub open spec fn other_error(message: Seq<char>) -> ErrorView {
    ErrorView::Io(IoErrorView { kind: ErrorKind::Other, message })
}

impl LookupView {
    /// The failure of a lookup that the host did not start.
    pub open spec fn start_error(self, code: ErrorCode) -> ErrorView {
        other_error(
            "DNS: could not start resolution for '"@ + self.host + "': "@ + error_code_text(code),
        )
    }

    /// The failure of a lookup without an address of the family asked for.
    pub open spec fn not_found_error(self) -> ErrorView {
        other_error(
            "DNS: no "@ + self.family.name() + " addresses found for '"@ + self.host + "'"@,
        )
    }

    /// The failure of a lookup that the host broke off.
    pub open spec fn failed_error(self, code: ErrorCode) -> ErrorView {
        other_error(
            "DNS: resolution failed for '"@ + self.host + "': "@ + error_code_text(code),
        )
    }

    /// What an answer leads to.
    pub open spec fn step(self, answer: LookupAnswer) -> LookupStepView {
        match answer {
            Ok(Some(ip)) => if self.family.admits(std_ip(ip)) {
                LookupStepView::Done(Ok(socket_addr(std_ip(ip), self.port)))
            } else {
                LookupStepView::Next
            },
            Ok(None) => LookupStepView::Done(Err(self.not_found_error())),
            Err(ErrorCode::WouldBlock) => LookupStepView::Wait,
            Err(code) => LookupStepView::Done(Err(self.failed_error(code))),
        }
    }

    /// How a lookup ends that gets these answers one after the other, if they
    /// bring it to its end.
    pub open spec fn outcome(self, answers: Seq<LookupAnswer>) -> Option<
        Result<SocketAddr, ErrorView>,
    >
        decreases answers.len(),
    {
        if answers.len() == 0 {
            None
        } else {
            match self.step(answers.first()) {
                LookupStepView::Done(res) => Some(res),
                _ => self.outcome(answers.drop_first()),
            }
        }
    }
}

/// A failure that is told by `message` alone.
fn other(message: String) -> (res: Error)
    ensures
        res@ == other_error(message@),
{
    Error::Io(IoError { kind: ErrorKind::Other, message })
}

impl Lookup {
    /// The error of a lookup that the host refused to start with `code`.
    pub fn start_failed(&self, code: ErrorCode) -> (res: Error)
        ensures
            res@ == self@.start_error(code),
    {
        other(
            "DNS: could not start resolution for '".to_owned().concat(self.host.as_str()).concat(
                "': ",
            ).concat(error_code_debug(code).as_str()),
        )
    }

    /// Takes an answer of the host. The first address of the right family
    /// ends the lookup, joined with the port; an address of the wrong family
    /// is passed over.
    pub fn answered(&self, answer: LookupAnswer) -> (res: LookupStep)
        ensures
            res@ == self@.step(answer),
    {
        match answer {
            Ok(Some(ip)) => {
                let std_ip = wasi_ip_to_std(ip);
                if self.family.matches(std_ip) {
                    LookupStep::Done(Ok(SocketAddr::new(std_ip, self.port)))
                } else {
                    LookupStep::Next
                }
            },
            Ok(None) => LookupStep::Done(
                Err(
                    other(
                        "DNS: no ".to_owned().concat(self.family.description()).concat(
                            " addresses found for '",
                        ).concat(self.host.as_str()).concat("'"),
                    ),
                ),
            ),
            Err(ErrorCode::WouldBlock) => LookupStep::Wait,
            Err(code) => LookupStep::Done(
                Err(
                    other(
                        "DNS: resolution failed for '".to_owned().concat(
                            self.host.as_str(),
                        ).concat("': ").concat(error_code_debug(code).as_str()),
                    ),
                ),
            ),
        }
    }
}

// ── Laws ─────────────────────────────────────────────────────────────────────

impl LookupView {
    /// Whether the lookup goes on after an answer: it is an address of the
    /// wrong family, or the host has none yet.
    pub open spec fn passes_over(self, answer: LookupAnswer) -> bool {
        match answer {
            Ok(Some(ip)) => !self.family.admits(std_ip(ip)),
            Ok(None) => false,
            Err(code) => code == ErrorCode::WouldBlock,
        }
    }

    /// Whether the `k`-th answer is the first that the lookup does not pass
    /// over.
    pub open spec fn ends_at(self, answers: Seq<LookupAnswer>, k: int) -> bool {
        &&& 0 <= k < answers.len()
        &&& !self.passes_over(answers[k])
        &&& forall|j: int| 0 <= j < k ==> self.passes_over(#[trigger] answers[j])
    }

    /// Whether the `k`-th answer is the first address of the family asked for,
    /// no answer before it ends the lookup, and `addr` is that address joined
    /// with the port.
    pub open spec fn finds(self, answers: Seq<LookupAnswer>, k: int, addr: SocketAddr) -> bool {
        &&& 0 <= k < answers.len()
        &&& answers[k] matches Ok(Some(ip)) && self.family.admits(std_ip(ip)) && addr
            == socket_addr(std_ip(ip), self.port)
        &&& forall|j: int| 0 <= j < k ==> self.passes_over(#[trigger] answers[j])
    }
}

/// The first answer that is not passed over decides the lookup, whatever stands
/// before it and behind it; and the lookup does not end before there is one.
pub proof fn lemma_first_final_answer_decides(lookup: LookupView, answers: Seq<LookupAnswer>)
    ensures
        forall|k: int| #[trigger]
            lookup.ends_at(answers, k) ==> lookup.step(answers[k]) is Done && lookup.outcome(
                answers,
            ) == Some(lookup.step(answers[k])->Done_0),
        lookup.outcome(answers) is Some <==> exists|k: int| lookup.ends_at(answers, k),
    decreases answers.len(),
{
    if answers.len() > 0 {
        assert(answers.first() == answers[0]);
        let rest = answers.drop_first();
        if lookup.passes_over(answers[0]) {
            lemma_first_final_answer_decides(lookup, rest);
            assert forall|k: int| #[trigger] lookup.ends_at(answers, k) implies lookup.ends_at(
                rest,
                k - 1,
            ) by {
                assert(rest[k - 1] == answers[k]);
                assert forall|j: int| 0 <= j < k - 1 implies lookup.passes_over(
                    #[trigger] rest[j],
                ) by {
                    assert(rest[j] == answers[j + 1]);
                }
            }
            assert forall|k: int| #[trigger] lookup.ends_at(rest, k) implies lookup.ends_at(
                answers,
                k + 1,
            ) by {
                assert(rest[k] == answers[k + 1]);
                assert forall|j: int| 0 <= j < k + 1 implies lookup.passes_over(
                    #[trigger] answers[j],
                ) by {
                    assert(j > 0 ==> answers[j] == rest[j - 1]);
                }
            }
        } else {
            assert(lookup.ends_at(answers, 0));
            assert forall|k: int| #[trigger] lookup.ends_at(answers, k) implies k == 0 by {
                assert(k > 0 ==> lookup.passes_over(answers[0]));
            }
        }
    }
}

/// A lookup gives an address exactly when that is the first address of the
/// family asked for among the answers, joined with the port, and every answer
/// before it is an address of another family or a wait.
pub proof fn lemma_lookup_gives_first_match(
    lookup: LookupView,
    answers: Seq<LookupAnswer>,
    addr: SocketAddr,
)
    ensures
        lookup.outcome(answers) == Some(Ok::<SocketAddr, ErrorView>(addr)) <==> exists|k: int|
            lookup.finds(answers, k, addr),
{
    lemma_first_final_answer_decides(lookup, answers);
    if lookup.outcome(answers) == Some(Ok::<SocketAddr, ErrorView>(addr)) {
        let k = choose|k: int| lookup.ends_at(answers, k);
        assert(lookup.finds(answers, k, addr));
    }
    if exists|k: int| lookup.finds(answers, k, addr) {
        let k = choose|k: int| lookup.finds(answers, k, addr);
        assert(lookup.ends_at(answers, k));
    }
}

/// An address of the family asked for ends a lookup with that very address and
/// the port asked for, whatever the address is; every other address is passed
/// over.
pub proof fn lemma_address_is_taken_whole(
    lookup: LookupView,
    v4: (u8, u8, u8, u8),
    v6: (u16, u16, u16, u16, u16, u16, u16, u16),
)
    ensures
        match lookup.step(Ok(Some(IpAddress::Ipv4(v4)))) {
            LookupStepView::Done(Ok(SocketAddr::V4(a))) => {
                &&& lookup.family is V4 || lookup.family is Any
                &&& a.port == lookup.port
                &&& a.ip.0 == v4.0 && a.ip.1 == v4.1 && a.ip.2 == v4.2 && a.ip.3 == v4.3
            },
            LookupStepView::Next => lookup.family is V6,
            _ => false,
        },
        match lookup.step(Ok(Some(IpAddress::Ipv6(v6)))) {
            LookupStepView::Done(Ok(SocketAddr::V6(a))) => {
                &&& lookup.family is V6 || lookup.family is Any
                &&& a.port == lookup.port
                &&& a.flowinfo == 0 && a.scope_id == 0
                &&& a.ip.0 == v6.0 && a.ip.1 == v6.1 && a.ip.2 == v6.2 && a.ip.3 == v6.3
                &&& a.ip.4 == v6.4 && a.ip.5 == v6.5 && a.ip.6 == v6.6 && a.ip.7 == v6.7
            },
            LookupStepView::Next => lookup.family is V4,
            _ => false,
        },
{
}

/// A lookup waits exactly when the host says that it would block; every other
/// error and the end of the list end it with a failure that names the host
/// looked up, and the error or the family.
pub proof fn lemma_lookup_failures_say_why(lookup: LookupView, code: ErrorCode)
    ensures
        lookup.step(Err(code)) is Wait <==> code == ErrorCode::WouldBlock,
        code != ErrorCode::WouldBlock ==> (lookup.step(Err(code)) matches LookupStepView::Done(
            Err(ErrorView::Io(e)),
        ) && e.kind == ErrorKind::Other && e.message == "DNS: resolution failed for '"@
            + lookup.host + "': "@ + error_code_text(code)),
        lookup.step(Ok(None)) matches LookupStepView::Done(Err(ErrorView::Io(e))) && e.kind
            == ErrorKind::Other && e.message == "DNS: no "@ + lookup.family.name()
            + " addresses found for '"@ + lookup.host + "'"@,
        lookup.start_error(code) matches ErrorView::Io(e) && e.kind == ErrorKind::Other
            && e.message == "DNS: could not start resolution for '"@ + lookup.host + "': "@
            + error_code_text(code),
{
}

/// A lookup keeps the host, the port and the family that it was made with, and
/// its step the result.
pub proof fn lemma_lookup_keeps_its_value(
    host: String,
    port: u16,
    family: DnsFamily,
    addr: SocketAddr,
    error: Error,
)
    ensures
        (Lookup { host, port, family })@ == (LookupView { host: host@, port, family }),
        LookupStep::Next@ is Next,
        LookupStep::Wait@ is Wait,
        LookupStep::Done(Ok(addr))@ == LookupStepView::Done(Ok(addr)),
        LookupStep::Done(Err(error))@ == LookupStepView::Done(Err(error@)),
{
}

} // verus!
