use vstd::prelude::*;

verus! {

/// The two wire protocol versions a session can speak.
#[derive(Clone, Copy, Debug, PartialEq, Eq, Structural)]
pub enum ProtocolVersion {
    /// The legacy, text-oriented protocol.
    RESP2,
    /// The richer, typed protocol with out-of-band push frames.
    RESP3,
}

/// The classes of failure a session can report.
#[derive(Clone, Copy, Debug, PartialEq, Eq, Structural)]
pub enum ErrorKind {
    /// Connecting, reading or writing failed, a timeout included.
    Io,
    /// The TLS handshake or the certificate check failed.
    Tls,
    /// A frame was malformed or had an unexpected shape.
    Protocol,
    /// The peer answered with an explicit error reply.
    Server,
    /// The address kind is not supported by this build or platform.
    Config,
}

/// An error reply as the peer sent it: a code and, after a space, optional details.
#[derive(Debug, PartialEq, Eq)]
pub struct ServerError {
    pub code: Vec<u8>,
    pub detail: Option<Vec<u8>>,
}

/// A failure of a session operation.
#[derive(Debug, PartialEq, Eq)]
pub struct RedisError {
    pub kind: ErrorKind,
    pub code: Vec<u8>,
    pub detail: Option<Vec<u8>>,
}

/// The mathematical content of a [`RedisError`].
pub struct ErrorView {
    pub kind: ErrorKind,
    pub code: Seq<u8>,
    pub detail: Option<Seq<u8>>,
}

pub type RedisResult<T> = Result<T, RedisError>;

/// The error of the given kind that carries nothing else.
pub open spec fn bare_error(kind: ErrorKind) -> ErrorView {
    ErrorView { kind, code: Seq::empty(), detail: None }
}

/// The error that reports bytes which cannot start a reply, or a reply of
/// an unexpected shape.
pub open spec fn protocol_error() -> ErrorView {
    bare_error(ErrorKind::Protocol)
}

/// The bytes held by an optional byte string.
pub open spec fn opt_bytes(o: Option<Vec<u8>>) -> Option<Seq<u8>> {
    match o {
        Some(b) => Some(b@),
        None => None,
    }
}

/// A copy of a byte string.
pub fn clone_bytes(bytes: &Vec<u8>) -> (copy: Vec<u8>)
    ensures
        copy@ == bytes@,
{
    let mut copy: Vec<u8> = Vec::new();
    let mut i: usize = 0;
    while i < bytes.len()
        invariant
            i <= bytes@.len(),
            copy@ == bytes@.take(i as int),
        decreases bytes@.len() - i,
    {
        copy.push(bytes[i]);
        i = i + 1;
    }
    copy
}

/// A copy of an optional byte string.
pub fn clone_opt_bytes(bytes: &Option<Vec<u8>>) -> (copy: Option<Vec<u8>>)
    ensures
        opt_bytes(copy) == opt_bytes(*bytes),
{
    match bytes {
        Some(b) => Some(clone_bytes(b)),
        None => None,
    }
}

impl Clone for ServerError {
    fn clone(&self) -> (copy: Self)
        ensures
            copy.code@ == self.code@,
            opt_bytes(copy.detail) == opt_bytes(self.detail),
    {
        ServerError { code: clone_bytes(&self.code), detail: clone_opt_bytes(&self.detail) }
    }
}

impl Clone for RedisError {
    fn clone(&self) -> (copy: Self)
        ensures
            copy@ == self@,
    {
        RedisError {
            kind: self.kind,
            code: clone_bytes(&self.code),
            detail: clone_opt_bytes(&self.detail),
        }
    }
}

impl View for RedisError {
    type V = ErrorView;

    open spec fn view(&self) -> ErrorView {
        ErrorView { kind: self.kind, code: self.code@, detail: opt_bytes(self.detail) }
    }
}

impl RedisError {
    /// An error of the given kind with no code and no details.
    pub fn of_kind(kind: ErrorKind) -> (e: RedisError)
        ensures
            e@ == bare_error(kind),
    {
        RedisError { kind, code: Vec::new(), detail: None }
    }

    /// The error that stands for an error reply of the peer.
    pub fn from_server(err: ServerError) -> (e: RedisError)
        ensures
            e@ == (ErrorView { kind: ErrorKind::Server, code: err.code@, detail: opt_bytes(err.detail) }),
    {
        RedisError { kind: ErrorKind::Server, code: err.code, detail: err.detail }
    }

    pub fn kind(&self) -> (k: ErrorKind)
        ensures
            k == self@.kind,
    {
        self.kind
    }
}

} // verus!
