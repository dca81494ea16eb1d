//! Where the server listens, and how that is written for people.

use crate::text::{decimal, decimal_text, parse_port, port_of};
use vstd::prelude::*;
use vstd::string::*;

verus! {

/// The port used when the environment names none.
pub const DEFAULT_PORT: u16 = 3000;

/// How many questions may wait between the server and the window.
pub const QUEUE_CAPACITY: usize = 128;

/// The port that a setting asks for: the setting where it writes a port, else the
/// default.
pub open spec fn configured_port(setting: Option<Seq<char>>) -> u16 {
    match setting {
        Some(text) => match port_of(text) {
            Some(port) => port,
            None => DEFAULT_PORT,
        },
        None => DEFAULT_PORT,
    }
}

/// The address and port to listen at.
pub open spec fn address_model(port: u16) -> Seq<char> {
    "127.0.0.1:"@ + decimal(port as nat)
}

/// The URL that MCP clients connect to.
pub open spec fn url_model(port: u16) -> Seq<char> {
    "http://"@ + address_model(port) + "/mcp"@
}

/// The port to listen at, given the value of `ASKHUMAN_PORT` where it is set.
pub fn resolve_port(setting: Option<String>) -> (port: u16)
    ensures
        port == configured_port(crate::channel::text_model(setting)),
{
    match setting {
        Some(text) => match parse_port(text.as_str()) {
            Some(port) => port,
            None => DEFAULT_PORT,
        },
        None => DEFAULT_PORT,
    }
}

/// The address and port to listen at.
pub fn bind_address(port: u16) -> (address: String)
    ensures
        address@ == address_model(port),
{
    let mut address = "127.0.0.1:".to_owned();
    address.append(decimal_text(port).as_str());
    address
}

/// The URL that MCP clients connect to.
pub fn endpoint_url(port: u16) -> (url: String)
    ensures
        url@ == url_model(port),
{
    let mut url = "http://".to_owned();
    url.append(bind_address(port).as_str());
    url.append("/mcp");
    url
}

/// The line printed when the server starts.
pub fn banner(port: u16) -> (line: String)
    ensures
        line@ == "AskHuman MCP server  →  "@ + url_model(port),
{
    let mut line = "AskHuman MCP server  →  ".to_owned();
    line.append(endpoint_url(port).as_str());
    line
}

/// The line printed when the server cannot listen at `address`.
pub fn bind_failure(address: &str, error: &str) -> (line: String)
    ensures
        line@ == "Failed to bind "@ + address@ + ": "@ + error@,
{
    let mut line = "Failed to bind ".to_owned();
    line.append(address);
    line.append(": ");
    line.append(error);
    line
}

} // verus!
