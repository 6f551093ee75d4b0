//! What is written to the log.

use vstd::prelude::*;
use vstd::string::*;

use crate::addr::{Ipv4Addr, SocketAddrV4};
use crate::text::{append_decimal, decimal};

verus! {

/// The line of an event, with the milliseconds since the epoch before it; a clock that stands
/// before the epoch counts as zero.
pub fn event(millis: Option<u128>, message: &str) -> (line: String)
    ensures
        line@ == decimal(
            match millis {
                Some(millis) => millis as nat,
                None => 0,
            },
        ) + " "@ + message@ + "\n"@,
{
    let millis = match millis {
        Some(millis) => millis,
        None => 0,
    };
    let mut line = String::new();
    append_decimal(&mut line, millis);
    line.append(" ");
    line.append(message);
    line.append("\n");
    line
}

/// A relay, by what it stands for.
#[derive(Clone, Copy, Debug, PartialEq, Eq, Structural)]
pub enum Relay {
    /// TLS and game traffic to an address.
    Protocol(Ipv4Addr),
    /// A proxy.
    Proxy(SocketAddrV4),
}

impl Relay {
    pub open spec fn title(self) -> Seq<char> {
        match self {
            Relay::Protocol(_) => "protocol relay"@,
            Relay::Proxy(_) => "loopback proxy relay"@,
        }
    }

    /// What the relay stands for, in words.
    pub open spec fn origin(self) -> Seq<char> {
        match self {
            Relay::Protocol(ip) => ip.shown(),
            Relay::Proxy(origin) => origin.shown(),
        }
    }

    fn append_title(&self, text: &mut String)
        ensures
            final(text)@ == old(text)@ + self.title(),
    {
        match self {
            Relay::Protocol(_) => text.append("protocol relay"),
            Relay::Proxy(_) => text.append("loopback proxy relay"),
        }
    }

    fn append_origin(&self, text: &mut String)
        ensures
            final(text)@ == old(text)@ + self.origin(),
    {
        match self {
            Relay::Protocol(ip) => ip.append_to(text),
            Relay::Proxy(origin) => origin.append_to(text),
        }
    }

    /// The name of the thread that accepts the relay's connections.
    pub fn thread_name(&self) -> (name: String)
        ensures
            name@ == match *self {
                Relay::Protocol(ip) => "sonetto-relay-"@ + ip.shown(),
                Relay::Proxy(origin) => "sonetto-proxy-relay-"@ + decimal(origin.port as nat),
            },
    {
        match self {
            Relay::Protocol(ip) => {
                let mut name = "sonetto-relay-".to_owned();
                ip.append_to(&mut name);
                name
            },
            Relay::Proxy(origin) => {
                let mut name = "sonetto-proxy-relay-".to_owned();
                append_decimal(&mut name, origin.port as u128);
                name
            },
        }
    }

    /// The event of a relay that listens on a port.
    pub fn listening(&self, port: u16) -> (text: String)
        ensures
            text@ == self.title() + " listening on 127.0.0.1:"@ + decimal(port as nat)
                + " origin="@ + self.origin() + match *self {
                Relay::Protocol(_) => ":443"@,
                Relay::Proxy(_) => ""@,
            },
    {
        let mut text = String::new();
        self.append_title(&mut text);
        text.append(" listening on 127.0.0.1:");
        append_decimal(&mut text, port as u128);
        text.append(" origin=");
        self.append_origin(&mut text);
        match self {
            Relay::Protocol(_) => text.append(":443"),
            Relay::Proxy(_) => text.append(""),
        }
        text
    }

    /// The event of a connection that the relay gave up.
    pub fn connection_failed(&self, error: &str) -> (text: String)
        ensures
            text@ == self.title() + " connection failed origin="@ + self.origin() + ": "@ + error@,
    {
        let mut text = String::new();
        self.append_title(&mut text);
        text.append(" connection failed origin=");
        self.append_origin(&mut text);
        text.append(": ");
        text.append(error);
        text
    }

    /// The event of a connection that could not be accepted.
    pub fn accept_failed(&self, error: &str) -> (text: String)
        ensures
            text@ == self.title() + " accept failed origin="@ + self.origin() + ": "@ + error@,
    {
        let mut text = String::new();
        self.append_title(&mut text);
        text.append(" accept failed origin=");
        self.append_origin(&mut text);
        text.append(": ");
        text.append(error);
        text
    }
}

/// A relay is known by what it stands for: one for TLS and game traffic by an address, one for a
/// proxy by an address and a port.
pub proof fn relays_are_known_by_what_they_stand_for(ip: Ipv4Addr, origin: SocketAddrV4)
    ensures
        Relay::Protocol(ip).title() == "protocol relay"@,
        Relay::Protocol(ip).origin() == ip.shown(),
        Relay::Proxy(origin).title() == "loopback proxy relay"@,
        Relay::Proxy(origin).origin() == origin.ip.shown() + ":"@ + decimal(origin.port as nat),
{
}

}
