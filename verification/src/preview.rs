//! The addresses of the preview server and what it relays to its clients.

use vstd::prelude::*;
use vstd::string::StringExecFns;
use crate::decimal::{decimal, decimal_digits};
use crate::page::{page_name, page_name_spec};

verus! {

/// How many refresh signals the hub holds for a client that is slow to read.
pub const HUB_CAPACITY: usize = 10;

/// The longest silence on a client's connection, in seconds: a keep-alive
/// goes out when nothing else has for this long.
pub const KEEP_ALIVE_SECS: u64 = 1;

/// The port that the preview server listens on unless it is told another.
pub const DEFAULT_PORT: u32 = 3000;

/// The path of the event stream that tells clients to reload.
pub const REFRESH_PATH: &'static str = "/refresh";

/// The path of the client script.
pub const REFRESH_SCRIPT_PATH: &'static str = "/refresh.js";

/// The name of the client script's file in the output directory.
pub const REFRESH_SCRIPT_FILE: &'static str = "refresh.js";

/// The data of a refresh event.
pub const REFRESH_DATA: &'static str = "refresh";

/// The client script: it listens to the event stream and reloads the page on
/// every message.
pub const REFRESH_SCRIPT: &'static str =
    "new EventSource(\"/refresh\").onmessage = () => location.reload();\n";

/// The address that the preview server listens on for `port`.
pub open spec fn host_spec(port: nat) -> Seq<char> {
    "127.0.0.1:"@ + decimal_digits(port)
}

/// The address that the preview server listens on for `port`.
pub fn host(port: u32) -> (address: String)
    ensures
        address@ == host_spec(port as nat),
{
    let mut address = String::from_str("127.0.0.1:");
    let digits = decimal(port as usize);
    address.append(digits.as_str());
    address
}

/// The address of the first page of the deck served at `host`.
pub open spec fn first_page_url_spec(host: Seq<char>) -> Seq<char> {
    "http://"@ + host + "/"@ + page_name_spec(1)
}

/// The address of the first page of the deck served at `host`.
pub fn first_page_url(host: &str) -> (url: String)
    ensures
        url@ == first_page_url_spec(host@),
{
    let mut url = String::from_str("http://");
    url.append(host);
    url.append("/");
    let name = page_name(1);
    url.append(name.as_str());
    url
}

/// What a client's subscription to the hub yields.
#[derive(Debug, Clone, Copy, PartialEq, Eq, Structural)]
pub enum HubItem {
    /// A refresh signal.
    Signal,
    /// The client fell behind and missed this many signals.
    Lagged { missed: u64 },
}

/// What the server does with an item of a client's subscription.
#[derive(Debug, Clone, Copy, PartialEq, Eq, Structural)]
pub enum Relay {
    /// Send a refresh event to the client.
    Send,
    /// Report the lag and go on with the next item; nothing is sent.
    ReportLag { missed: u64 },
}

/// What the server does with an item of a client's subscription. A signal is
/// sent on. A lag is reported and passed over: it never ends the connection.
pub fn relay(item: HubItem) -> (relayed: Relay)
    ensures
        relayed == match item {
            HubItem::Signal => Relay::Send,
            HubItem::Lagged { missed } => Relay::ReportLag { missed },
        },
{
    match item {
        HubItem::Signal => Relay::Send,
        HubItem::Lagged { missed } => Relay::ReportLag { missed },
    }
}

} // verus!
