//! One configured pair of listening port and upstream.

use vstd::prelude::*;
use vstd::string::*;
use crate::text::{decimal_text, push_decimal};

verus! {

/// A listening port and the base URL that its traffic is forwarded to.
/// It is made once, at start, and never changed.
#[derive(Debug, PartialEq, Eq)]
pub struct ProxyMapping {
    port: u16,
    upstream_base_url: String,
}

/// What a [`ProxyMapping`] holds, as mathematical values.
pub struct MappingView {
    pub port: u16,
    pub upstream_base_url: Seq<char>,
}

impl View for ProxyMapping {
    type V = MappingView;

    closed spec fn view(&self) -> MappingView {
        MappingView { port: self.port, upstream_base_url: self.upstream_base_url@ }
    }
}

impl Clone for ProxyMapping {
    fn clone(&self) -> (m: ProxyMapping)
        ensures
            m@ == self@,
    {
        ProxyMapping { port: self.port, upstream_base_url: self.upstream_base_url.clone() }
    }
}

/// The address that the listener of `port` binds, as text: every interface,
/// that port.
pub open spec fn listen_address_text(port: u16) -> Seq<char> {
    "0.0.0.0:"@ + decimal_text(port as nat)
}

/// The line that announces a listener at start.
pub open spec fn startup_line_text(m: MappingView) -> Seq<char> {
    "Proxy http://"@ + listen_address_text(m.port) + " => "@ + m.upstream_base_url
}

impl ProxyMapping {
    /// A mapping of `port` to `upstream_base_url`.
    pub fn new(port: u16, upstream_base_url: &str) -> (m: ProxyMapping)
        ensures
            m@ == (MappingView { port, upstream_base_url: upstream_base_url@ }),
    {
        ProxyMapping { port, upstream_base_url: upstream_base_url.to_owned() }
    }

    /// The listening port.
    pub fn port(&self) -> (port: u16)
        ensures
            port == self@.port,
    {
        self.port
    }

    /// The base URL of the upstream.
    pub fn upstream_base_url(&self) -> (url: &str)
        ensures
            url@ == self@.upstream_base_url,
    {
        self.upstream_base_url.as_str()
    }

    /// The address to bind, `0.0.0.0:<port>`.
    pub fn listen_address(&self) -> (s: String)
        ensures
            s@ == listen_address_text(self@.port),
    {
        let mut s = "0.0.0.0:".to_owned();
        push_decimal(&mut s, self.port);
        s
    }

    /// The startup line, `Proxy http://0.0.0.0:<port> => <upstream>`.
    pub fn startup_line(&self) -> (s: String)
        ensures
            s@ == startup_line_text(self@),
    {
        let mut s = "Proxy http://0.0.0.0:".to_owned();
        push_decimal(&mut s, self.port);
        s.append(" => ");
        s.append(self.upstream_base_url.as_str());
        proof {
            reveal_strlit("Proxy http://0.0.0.0:");
            reveal_strlit("Proxy http://");
            reveal_strlit("0.0.0.0:");
            assert("Proxy http://0.0.0.0:"@ =~= "Proxy http://"@ + "0.0.0.0:"@);
            assert(s@ =~= startup_line_text(self@));
        }
        s
    }
}

} // verus!
