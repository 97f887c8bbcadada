use crate::connection::RedisConnectionInfo;
use crate::types::{bare_error, ErrorKind, ErrorView, RedisError, RedisResult};
use vstd::prelude::*;

verus! {

/// Trust parameters that the caller supplies for a TLS connection.
#[derive(Clone, Copy, Debug, PartialEq, Eq, Structural)]
pub struct TlsConnParams {
    /// Whether a certificate for another host name is accepted.
    pub danger_accept_invalid_hostnames: bool,
}

/// Where the peer is to be reached. Chosen once for a session.
#[derive(Clone, Debug, PartialEq, Eq)]
pub enum ConnectionAddr {
    /// A host name and a port, over plain TCP.
    Tcp(String, u16),
    /// A host name and a port, over TCP with TLS.
    TcpTls {
        host: String,
        port: u16,
        /// Whether certificate and host name checks are switched off.
        insecure: bool,
        tls_params: Option<TlsConnParams>,
    },
    /// The path of a Unix domain socket.
    Unix(String),
}

/// An address and what the session is set up with.
#[derive(Clone, Debug, PartialEq, Eq)]
pub struct ConnectionInfo {
    pub addr: ConnectionAddr,
    pub redis: RedisConnectionInfo,
}

/// The transports that this build and platform can open.
#[derive(Clone, Copy, Debug, PartialEq, Eq, Structural)]
pub struct Transports {
    /// Whether TLS is available.
    pub tls: bool,
    /// Whether Unix domain sockets are available.
    pub unix: bool,
}

/// What a TLS connector is told to check.
#[derive(Clone, Copy, Debug, PartialEq, Eq, Structural)]
pub struct TlsPolicy {
    /// Whether any certificate is accepted.
    pub accept_invalid_certs: bool,
    /// Whether a certificate for another host name is accepted.
    pub accept_invalid_hostnames: bool,
    /// Whether the host name is sent to the peer during the handshake.
    pub use_sni: bool,
}

/// What is checked on a TLS connection.
///
/// An insecure connection checks nothing and does not send the host name.
/// Any other connection checks the certificate, and checks the host name
/// unless the caller's parameters say otherwise.
pub open spec fn tls_policy_of(insecure: bool, tls_params: Option<TlsConnParams>) -> TlsPolicy {
    if insecure {
        TlsPolicy { accept_invalid_certs: true, accept_invalid_hostnames: true, use_sni: false }
    } else {
        TlsPolicy {
            accept_invalid_certs: false,
            accept_invalid_hostnames: match tls_params {
                Some(params) => params.danger_accept_invalid_hostnames,
                None => false,
            },
            use_sni: true,
        }
    }
}

/// Decides what a TLS connector is told to check.
pub fn tls_policy(insecure: bool, tls_params: &Option<TlsConnParams>) -> (policy: TlsPolicy)
    ensures
        policy == tls_policy_of(insecure, *tls_params),
{
    if insecure {
        TlsPolicy { accept_invalid_certs: true, accept_invalid_hostnames: true, use_sni: false }
    } else if let Some(params) = tls_params {
        TlsPolicy {
            accept_invalid_certs: false,
            accept_invalid_hostnames: params.danger_accept_invalid_hostnames,
            use_sni: true,
        }
    } else {
        TlsPolicy { accept_invalid_certs: false, accept_invalid_hostnames: false, use_sni: true }
    }
}

/// How a stream to the peer is obtained.
#[derive(Clone, Debug, PartialEq, Eq)]
pub enum ConnectPlan {
    /// Resolve the host to its candidate addresses, then race a TCP connect
    /// to every one of them.
    Tcp { host: String, port: u16 },
    /// Resolve the host to its candidate addresses, then race a TCP connect
    /// with a TLS handshake to every one of them.
    TcpTls { host: String, port: u16, insecure: bool, tls_params: Option<TlsConnParams> },
    /// Connect to the Unix domain socket at the path; nothing is resolved and
    /// nothing is raced.
    Unix { path: String },
}

/// The mathematical content of a [`ConnectPlan`].
pub enum ConnectPlanView {
    Tcp { host: Seq<char>, port: u16 },
    TcpTls { host: Seq<char>, port: u16, insecure: bool, tls_params: Option<TlsConnParams> },
    Unix { path: Seq<char> },
}

impl View for ConnectPlan {
    type V = ConnectPlanView;

    open spec fn view(&self) -> ConnectPlanView {
        match self {
            ConnectPlan::Tcp { host, port } => ConnectPlanView::Tcp { host: host@, port: *port },
            ConnectPlan::TcpTls { host, port, insecure, tls_params } => ConnectPlanView::TcpTls {
                host: host@,
                port: *port,
                insecure: *insecure,
                tls_params: *tls_params,
            },
            ConnectPlan::Unix { path } => ConnectPlanView::Unix { path: path@ },
        }
    }
}

/// The error that reports an address kind which cannot be opened here.
pub open spec fn unsupported() -> ErrorView {
    bare_error(ErrorKind::Config)
}

/// How a stream to the given address is obtained with the given transports,
/// or the configuration error where the address kind is not available.
pub open spec fn plan_of(addr: ConnectionAddr, transports: Transports) -> Result<
    ConnectPlanView,
    ErrorView,
> {
    match addr {
        ConnectionAddr::Tcp(host, port) => Ok(ConnectPlanView::Tcp { host: host@, port }),
        ConnectionAddr::TcpTls { host, port, insecure, tls_params } => if transports.tls {
            Ok(ConnectPlanView::TcpTls { host: host@, port, insecure, tls_params })
        } else {
            Err(unsupported())
        },
        ConnectionAddr::Unix(path) => if transports.unix {
            Ok(ConnectPlanView::Unix { path: path@ })
        } else {
            Err(unsupported())
        },
    }
}

/// The content of a plan or of the error in its place.
pub open spec fn plan_view(r: RedisResult<ConnectPlan>) -> Result<ConnectPlanView, ErrorView> {
    match r {
        Ok(plan) => Ok(plan@),
        Err(e) => Err(e@),
    }
}

/// Decides how a stream to the peer is obtained.
pub fn connect_simple(connection_info: &ConnectionInfo, transports: Transports) -> (plan:
    RedisResult<ConnectPlan>)
    ensures
        plan_view(plan) == plan_of(connection_info.addr, transports),
{
    match &connection_info.addr {
        ConnectionAddr::Tcp(host, port) => Ok(ConnectPlan::Tcp { host: host.clone(), port: *port }),
        ConnectionAddr::TcpTls { host, port, insecure, tls_params } => {
            if transports.tls {
                Ok(
                    ConnectPlan::TcpTls {
                        host: host.clone(),
                        port: *port,
                        insecure: *insecure,
                        tls_params: *tls_params,
                    },
                )
            } else {
                Err(RedisError::of_kind(ErrorKind::Config))
            }
        },
        ConnectionAddr::Unix(path) => {
            if transports.unix {
                Ok(ConnectPlan::Unix { path: path.clone() })
            } else {
                Err(RedisError::of_kind(ErrorKind::Config))
            }
        },
    }
}

/// A race between connection attempts to the candidate addresses of a host:
/// how many attempts have not ended yet.
#[derive(Debug, PartialEq, Eq)]
pub struct Race {
    pending: usize,
}

/// Where a race stands after an attempt has ended.
#[derive(Debug, PartialEq, Eq)]
pub enum Raced<T> {
    /// Other attempts are still under way: wait for the next one to end.
    Wait(Race),
    /// The race is over: drop the attempts that have not ended.
    Done(RedisResult<T>),
}

/// The mathematical content of a [`Raced`].
pub enum RacedView<T> {
    Wait(nat),
    Done(Result<T, ErrorView>),
}

/// The content of how an attempt ended.
pub open spec fn attempt_view<T>(outcome: RedisResult<T>) -> Result<T, ErrorView> {
    match outcome {
        Ok(stream) => Ok(stream),
        Err(e) => Err(e@),
    }
}

impl<T> View for Raced<T> {
    type V = RacedView<T>;

    open spec fn view(&self) -> RacedView<T> {
        match self {
            Raced::Wait(race) => RacedView::Wait(race@),
            Raced::Done(r) => RacedView::Done(attempt_view(*r)),
        }
    }
}

impl View for Race {
    type V = nat;

    closed spec fn view(&self) -> nat {
        self.pending as nat
    }
}

/// Where a race with `pending` attempts under way stands after one of them
/// has ended.
///
/// The first attempt that succeeds wins. A failed attempt is passed over
/// while others are under way; the failure of the last one is how the race
/// ends.
pub open spec fn raced<T>(pending: nat, outcome: Result<T, ErrorView>) -> RacedView<T> {
    match outcome {
        Ok(stream) => RacedView::Done(Ok(stream)),
        Err(e) => if pending <= 1 {
            RacedView::Done(Err(e))
        } else {
            RacedView::Wait((pending - 1) as nat)
        },
    }
}

impl Race {
    /// A race between attempts to `candidates` addresses.
    pub fn new(candidates: usize) -> (race: Race)
        requires
            candidates > 0,
        ensures
            race@ == candidates,
    {
        Race { pending: candidates }
    }

    /// Reports how one attempt ended.
    pub fn completed<T>(self, outcome: RedisResult<T>) -> (next: Raced<T>)
        ensures
            next@ == raced(self@, attempt_view(outcome)),
    {
        match outcome {
            Ok(stream) => Raced::Done(Ok(stream)),
            Err(e) => {
                if self.pending <= 1 {
                    Raced::Done(Err(e))
                } else {
                    Raced::Wait(Race { pending: self.pending - 1 })
                }
            },
        }
    }
}

/// How a race with `pending` attempts under way ends on the outcomes of its
/// attempts, in the order in which they end; nothing while it is undecided.
pub open spec fn race_result<T>(pending: nat, outcomes: Seq<Result<T, ErrorView>>) -> Option<
    Result<T, ErrorView>,
>
    decreases outcomes.len(),
{
    if outcomes.len() == 0 {
        None
    } else {
        match raced(pending, outcomes[0]) {
            RacedView::Done(r) => Some(r),
            RacedView::Wait(left) => race_result(left, outcomes.skip(1)),
        }
    }
}

/// A race is won by the first attempt that succeeds.
///
/// Let the attempt that ends at position `winner` succeed, let all that
/// ended before it have failed, and let them be fewer than the candidates.
/// Then the race ends with the stream of that attempt, and none of the
/// failures shows.
pub proof fn first_success_wins<T>(
    candidates: nat,
    outcomes: Seq<Result<T, ErrorView>>,
    winner: int,
)
    requires
        0 <= winner < outcomes.len(),
        winner < candidates,
        outcomes[winner] is Ok,
        forall|i: int| 0 <= i < winner ==> (#[trigger] outcomes[i]) is Err,
    ensures
        race_result(candidates, outcomes) == Some(outcomes[winner]),
    decreases winner,
{
    if winner > 0 {
        let rest = outcomes.skip(1);
        assert forall|i: int| 0 <= i < winner - 1 implies (#[trigger] rest[i]) is Err by {
            assert(rest[i] == outcomes[i + 1]);
        }
        first_success_wins((candidates - 1) as nat, rest, winner - 1);
    }
}

/// A race in which every attempt fails ends with the failure of the attempt
/// that ends last.
pub proof fn all_failures_give_the_last<T>(candidates: nat, outcomes: Seq<Result<T, ErrorView>>)
    requires
        candidates > 0,
        outcomes.len() == candidates,
        forall|i: int| 0 <= i < outcomes.len() ==> (#[trigger] outcomes[i]) is Err,
    ensures
        race_result(candidates, outcomes) == Some(outcomes.last()),
    decreases candidates,
{
    if candidates > 1 {
        let rest = outcomes.skip(1);
        assert forall|i: int| 0 <= i < rest.len() implies (#[trigger] rest[i]) is Err by {
            assert(rest[i] == outcomes[i + 1]);
        }
        all_failures_give_the_last((candidates - 1) as nat, rest);
    }
}

} // verus!
