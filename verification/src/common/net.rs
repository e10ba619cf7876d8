//! Addresses of nodes.

use vstd::prelude::*;
use crate::text::{decimal, push_decimal, same};

verus! {

/// The address of a node: an IP address in its canonical text form, a port, and
/// for IPv6 the number of the interface that a link-local address is for and
/// the flow label, zero where there is none.
#[derive(Debug, PartialEq, Eq)]
pub struct NodeAddr {
    pub ip: String,
    pub port: u16,
    pub ipv4: bool,
    pub scope_id: u32,
    pub flowinfo: u32,
}

pub struct AddrView {
    pub ip: Seq<char>,
    pub port: u16,
    pub ipv4: bool,
    pub scope_id: u32,
    pub flowinfo: u32,
}

impl View for NodeAddr {
    type V = AddrView;

    open spec fn view(&self) -> AddrView {
        AddrView {
            ip: self.ip@,
            port: self.port,
            ipv4: self.ipv4,
            scope_id: self.scope_id,
            flowinfo: self.flowinfo,
        }
    }
}

impl Clone for NodeAddr {
    fn clone(&self) -> (r: NodeAddr)
        ensures
            r@ == self@,
    {
        NodeAddr {
            ip: self.ip.clone(),
            port: self.port,
            ipv4: self.ipv4,
            scope_id: self.scope_id,
            flowinfo: self.flowinfo,
        }
    }
}

/// What names the interface behind an IPv6 address.
pub open spec fn scope_text(scope_id: u32) -> Seq<char> {
    if scope_id == 0 {
        Seq::empty()
    } else {
        "%"@ + decimal(scope_id as nat)
    }
}

/// The text form of an address: `ip:port`, with brackets around an IPv6 address
/// and its interface.
pub open spec fn addr_text(a: AddrView) -> Seq<char> {
    if a.ipv4 {
        a.ip + ":"@ + decimal(a.port as nat)
    } else {
        "["@ + a.ip + scope_text(a.scope_id) + "]:"@ + decimal(a.port as nat)
    }
}

/// The text under which what belongs to an address is kept: its text form, which
/// leaves the flow label out, and the flow label.
pub open spec fn addr_key(a: AddrView) -> Seq<char> {
    if a.flowinfo == 0 {
        addr_text(a)
    } else {
        addr_text(a) + "/"@ + decimal(a.flowinfo as nat)
    }
}

impl NodeAddr {
    /// The text under which what belongs to this address is kept.
    pub fn key(&self) -> (r: String)
        ensures
            r@ == addr_key(self@),
    {
        let mut out = self.text();
        if self.flowinfo != 0 {
            out.append("/");
            push_decimal(&mut out, self.flowinfo as u64);
        }
        out
    }

    /// The text form of this address.
    pub fn text(&self) -> (r: String)
        ensures
            r@ == addr_text(self@),
    {
        let mut out = String::new();
        if self.ipv4 {
            out.append(self.ip.as_str());
            out.append(":");
        } else {
            out.append("[");
            out.append(self.ip.as_str());
            if self.scope_id != 0 {
                out.append("%");
                push_decimal(&mut out, self.scope_id as u64);
            }
            out.append("]:");
        }
        push_decimal(&mut out, self.port as u64);
        assert(out@ =~= addr_text(self@));
        out
    }

    /// Whether two addresses are the same.
    pub fn equals(&self, other: &NodeAddr) -> (r: bool)
        ensures
            r == (self@ == other@),
    {
        same(self.ip.as_str(), other.ip.as_str()) && self.port == other.port && self.ipv4
            == other.ipv4 && self.scope_id == other.scope_id && self.flowinfo == other.flowinfo
    }
}

/// What a text is as an address.
#[derive(Debug, PartialEq, Eq)]
pub enum AddrPattern {
    NotAnAddress,
    /// An IP address, in canonical form.
    Ip(String),
    /// An IP address and a port.
    Socket(NodeAddr),
}

pub enum AddrPatternView {
    NotAnAddress,
    Ip(Seq<char>),
    Socket(AddrView),
}

impl View for AddrPattern {
    type V = AddrPatternView;

    open spec fn view(&self) -> AddrPatternView {
        match self {
            AddrPattern::NotAnAddress => AddrPatternView::NotAnAddress,
            AddrPattern::Ip(ip) => AddrPatternView::Ip(ip@),
            AddrPattern::Socket(a) => AddrPatternView::Socket(a@),
        }
    }
}

impl Clone for AddrPattern {
    fn clone(&self) -> (r: AddrPattern)
        ensures
            r@ == self@,
    {
        match self {
            AddrPattern::NotAnAddress => AddrPattern::NotAnAddress,
            AddrPattern::Ip(ip) => AddrPattern::Ip(ip.clone()),
            AddrPattern::Socket(a) => AddrPattern::Socket(a.clone()),
        }
    }
}

} // verus!
