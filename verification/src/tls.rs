use crate::types::{bare_error, ErrorKind, ErrorView, RedisError, RedisResult};
use rustls::pki_types::{InvalidDnsNameError, ServerName};
use vstd::prelude::*;

verus! {

/// `ServerName` of rustls: the identity of a TLS server. Nothing is known
/// of what a value holds; it is carried from where it is made to the driver.
#[verifier::external_type_specification]
#[verifier::external_body]
pub struct ExServerName<'a>(rustls::pki_types::ServerName<'a>);

/// `InvalidDnsNameError` of rustls: the failure to make a `ServerName`. It
/// holds nothing.
#[verifier::external_type_specification]
#[verifier::external_body]
pub struct ExInvalidDnsNameError(rustls::pki_types::InvalidDnsNameError);

/// Whether rustls takes a text as the name of a server: as a DNS name that
/// is well formed, or else as an IP address.
pub uninterp spec fn names_a_server(hostname: Seq<char>) -> bool;

/// `ServerName::try_from` of rustls, on an owned copy of the text.
///
/// The call parses the text as a DNS name or, failing that, as an IP
/// address. Which texts it takes depends on the text alone; nothing more is
/// claimed here than that the call succeeds on exactly those texts.
#[verifier::external_body]
fn parse_server_name(hostname: &str) -> (r: Result<ServerName<'static>, InvalidDnsNameError>)
    ensures
        r is Ok <==> names_a_server(hostname@),
{
    ServerName::try_from(hostname.to_owned())
}

/// The error that reports a host name which cannot identify a TLS server.
pub open spec fn invalid_server_name() -> ErrorView {
    bare_error(ErrorKind::Tls)
}

/// The identity that the certificate of the peer is checked against.
///
/// It is made from the host name that the caller asked for, not from the
/// address that the name resolved to. A host name that cannot identify a
/// server is a TLS error.
pub fn tls_server_name(hostname: &str) -> (r: RedisResult<ServerName<'static>>)
    ensures
        r is Ok <==> names_a_server(hostname@),
        r matches Err(e) ==> e@ == invalid_server_name(),
{
    match parse_server_name(hostname) {
        Ok(name) => Ok(name),
        Err(_) => Err(RedisError::of_kind(ErrorKind::Tls)),
    }
}

} // verus!
