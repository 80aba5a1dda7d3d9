//! Where the relay listens and where it connects to.

use vstd::prelude::*;

verus! {

/// The upstream server.
#[derive(Debug)]
pub struct Server {
    pub host: String,
    pub port: String,
}

/// The listener that clients connect to.
#[derive(Debug)]
pub struct Proxy {
    pub host: String,
    pub port: String,
}

/// The whole configuration: made once at startup and handed on.
#[derive(Debug)]
pub struct Settings {
    pub server: Server,
    pub proxy: Proxy,
}

/// A host and a port as one socket address.
pub open spec fn address_of(host: Seq<char>, port: Seq<char>) -> Seq<char> {
    host + seq![':'] + port
}

/// Trusted: `format!` of std, with two `{}` placeholders and a colon between
/// them: the result is the first string, a colon, and the second string.
#[verifier::external_body]
fn join_with_colon(host: &String, port: &String) -> (address: String)
    ensures
        address@ == address_of(host@, port@),
{
    format!("{}:{}", host, port)
}

impl Server {
    /// The address to connect to.
    pub fn address(&self) -> (address: String)
        ensures
            address@ == address_of(self.host@, self.port@),
    {
        join_with_colon(&self.host, &self.port)
    }
}

impl Proxy {
    /// The address to listen on.
    pub fn address(&self) -> (address: String)
        ensures
            address@ == address_of(self.host@, self.port@),
    {
        join_with_colon(&self.host, &self.port)
    }
}

} // verus!
