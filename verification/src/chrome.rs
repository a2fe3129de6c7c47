//! Where the headless browser that renders pages is found.
use crate::sql::{decimal, format_decimal};
use vstd::prelude::*;

verus! {

/// The port a remote browser listens on when none is configured.
pub const DEFAULT_CHROME_PORT: u16 = 9222;

/// How a remote browser is reached.
#[derive(Debug, Clone)]
pub struct ChromeParams {
    pub chrome_host: String,
    pub chrome_port: u16,
}

/// A browser started here, or one reached over the network.
#[derive(Debug, Clone)]
pub enum ChromeConnection {
    Local,
    Remote { host: String, port: u16 },
}

/// Renders pages in a browser.
#[derive(Debug, Clone)]
pub struct ChromeClient {
    connection: ChromeConnection,
}

impl ChromeClient {
    /// A client for the given browser.
    pub fn new(connection: ChromeConnection) -> (c: Self)
        ensures
            c.connection() == connection,
    {
        Self { connection }
    }

    /// The browser the client uses.
    pub closed spec fn connection(&self) -> ChromeConnection {
        self.connection
    }

    /// The browser the client uses.
    pub fn browser(&self) -> (c: &ChromeConnection)
        ensures
            *c == self.connection(),
    {
        &self.connection
    }
}

impl ChromeParams {
    /// The remote browser these parameters name.
    pub fn connection(&self) -> (c: ChromeConnection)
        ensures
            c == (ChromeConnection::Remote { host: self.chrome_host, port: self.chrome_port }),
    {
        ChromeConnection::Remote { host: self.chrome_host.clone(), port: self.chrome_port }
    }
}

/// The address where a remote browser describes itself, including the
/// address of its debugging socket.
pub open spec fn version_endpoint(host: Seq<char>, port: u16) -> Seq<char> {
    "http://"@ + host + ":"@ + decimal(port as nat) + "/json/version"@
}

/// The address where a remote browser describes itself.
pub fn version_endpoint_url(host: &str, port: u16) -> (r: String)
    ensures
        r@ == version_endpoint(host@, port),
{
    String::from_str("http://").concat(host).concat(":").concat(
        format_decimal(port as u64).as_str(),
    ).concat("/json/version")
}

} // verus!
