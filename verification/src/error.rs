//! The errors of the transport.

use libp2p_core::multiaddr::Multiaddr;
use libp2p_core::transport::ListenerId;
use vstd::prelude::*;

verus! {

/// The identifier that libp2p gives to a listener: `libp2p_core::transport::ListenerId`.
/// Nothing is assumed of it here.
#[verifier::external_type_specification]
#[verifier::external_body]
pub struct ExListenerId(ListenerId);

/// What kind of failure an [`IoError`] reports.
#[derive(Copy, Clone, Debug, PartialEq, Eq, Structural)]
pub enum ErrorKind {
    /// The host's network policy forbids the operation.
    PermissionDenied,
    /// The operation does not exist on this platform.
    Unsupported,
    /// Any other failure, told by its message.
    Other,
}

/// A failed socket operation.
#[derive(Debug)]
pub struct IoError {
    pub kind: ErrorKind,
    pub message: String,
}

/// What an [`IoError`] says.
pub struct IoErrorView {
    pub kind: ErrorKind,
    pub message: Seq<char>,
}

impl View for IoError {
    type V = IoErrorView;

    open spec fn view(&self) -> IoErrorView {
        IoErrorView { kind: self.kind, message: self.message@ }
    }
}

/// An error of the transport.
#[derive(Debug)]
pub enum Error {
    /// The transport does not handle addresses of this form.
    UnsupportedMultiaddr(Multiaddr),
    /// The text is not a multiaddress.
    InvalidMultiaddr(String),
    /// No listener has this identifier.
    UnknownListener(ListenerId),
    /// A socket operation failed.
    Io(IoError),
    /// The WASI host's network policy denied the connection.
    ///
    /// Under Wasmtime, pass `-S inherit-network` (or `--wasi inherit-network`)
    /// to grant the component access to the host network.
    AccessDenied,
}

/// What an [`Error`] says.
pub enum ErrorView {
    UnsupportedMultiaddr(Multiaddr),
    InvalidMultiaddr(Seq<char>),
    UnknownListener(ListenerId),
    Io(IoErrorView),
    AccessDenied,
}

impl View for Error {
    type V = ErrorView;

    open spec fn view(&self) -> ErrorView {
        match self {
            Error::UnsupportedMultiaddr(addr) => ErrorView::UnsupportedMultiaddr(*addr),
            Error::InvalidMultiaddr(text) => ErrorView::InvalidMultiaddr(text@),
            Error::UnknownListener(id) => ErrorView::UnknownListener(*id),
            Error::Io(e) => ErrorView::Io(e@),
            Error::AccessDenied => ErrorView::AccessDenied,
        }
    }
}

impl IoError {
    /// A failure of the given kind with the given message.
    pub fn new(kind: ErrorKind, message: &str) -> (res: IoError)
        ensures
            res@ == (IoErrorView { kind, message: message@ }),
    {
        IoError { kind, message: message.to_owned() }
    }
}

/// Errors that are told apart by nothing but what they say: an error keeps the
/// address, the text, the identifier or the failure that it was made with.
pub proof fn lemma_error_keeps_what_it_says(
    addr: Multiaddr,
    text: String,
    id: ListenerId,
    kind: ErrorKind,
    message: String,
)
    ensures
        Error::UnsupportedMultiaddr(addr)@ == ErrorView::UnsupportedMultiaddr(addr),
        Error::InvalidMultiaddr(text)@ == ErrorView::InvalidMultiaddr(text@),
        Error::UnknownListener(id)@ == ErrorView::UnknownListener(id),
        Error::AccessDenied@ == ErrorView::AccessDenied,
        (Error::Io(IoError { kind, message })@ matches ErrorView::Io(e) && e.kind == kind
            && e.message == message@),
{
}

} // verus!
