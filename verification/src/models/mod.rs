//! The configuration document and its parts.
//!
//! The types here are plain data with public fields. Each type that the
//! merge operations read or write has a view: the same data with every string
//! as a sequence of characters, which is what the contracts speak of. The
//! sections that are only carried along (inbounds, log, route) stand in the
//! document's view as they are.
pub mod decode;
pub mod enrich;
pub mod laws;
pub mod view;

use vstd::prelude::*;
use crate::models::view::{
    DirectView, DnsOutboundView, DnsServerView, RealityView, TlsView, UtlsView, VlessView,
};

verus! {

/// A resolver of the DNS section.
#[derive(Debug, PartialEq, Eq)]
pub struct DnsServer {
    pub address: String,
    pub tag: String,
}

/// The DNS section: the resolvers and the tag of the one used last.
#[derive(Clone, Debug, PartialEq, Eq)]
pub struct Dns {
    pub final_field: String,
    pub servers: Vec<DnsServer>,
}

/// A listener. Absent attributes stay absent.
#[derive(Clone, Debug, PartialEq, Eq)]
pub struct Inbound {
    pub address: Option<Vec<String>>,
    pub interface_name: Option<String>,
    pub mtu: Option<i32>,
    pub sniff: Option<bool>,
    pub auto_route: Option<bool>,
    pub strict_route: Option<bool>,
    pub tag: String,
    pub type_field: String,
    pub stack: Option<String>,
}

/// The logging section.
#[derive(Clone, Debug, PartialEq, Eq)]
pub struct Log {
    pub level: String,
    pub timestamp: Option<bool>,
}

/// An outbound that connects directly.
#[derive(Debug, PartialEq, Eq)]
pub struct DirectOutbound {
    pub tag: String,
    pub type_field: String,
}

/// An outbound through a SOCKS proxy.
#[derive(Clone, Debug, PartialEq, Eq)]
pub struct SocksOutbound {
    pub tag: String,
    pub type_field: String,
    pub server: String,
    pub server_port: i32,
}

/// The outbound that answers DNS queries.
#[derive(Debug, PartialEq, Eq)]
pub struct DnsOutbound {
    pub tag: String,
    pub type_field: String,
}

/// The REALITY part of a TLS configuration.
#[derive(Debug, PartialEq, Eq)]
pub struct RealityConfig {
    pub enabled: bool,
    pub public_key: Option<String>,
    pub short_id: String,
}

/// The uTLS part of a TLS configuration.
#[derive(Debug, PartialEq, Eq)]
pub struct UtlsConfig {
    pub enabled: bool,
    pub fingerprint: String,
}

/// The TLS configuration of an outbound. Each of the two parts may be
/// present or absent, independently of the other.
#[derive(Debug, PartialEq, Eq)]
pub struct TlsConfig {
    pub enabled: bool,
    pub reality: Option<RealityConfig>,
    pub server_name: String,
    pub utls: Option<UtlsConfig>,
}

/// A VLESS outbound.
#[derive(Debug, PartialEq, Eq)]
pub struct VlessOutbound {
    pub packet_encoding: String,
    pub server: String,
    pub server_port: i32,
    pub tls: Option<TlsConfig>,
    pub type_field: String,
    pub tag: String,
    pub uuid: String,
}

/// An outbound of one of the supported kinds.
#[derive(Debug, PartialEq, Eq)]
pub enum Outbound {
    Direct(DirectOutbound),
    Dns(DnsOutbound),
    Vless(VlessOutbound),
}

/// A routing rule. Absent attributes stay absent.
#[derive(Clone, Debug, PartialEq, Eq)]
pub struct RouteRule {
    pub inbound: Option<String>,
    pub outbound: Option<String>,
    pub action: Option<String>,
    pub protocol: Option<String>,
    pub ip_cidr: Option<Vec<String>>,
    pub domain_suffix: Option<Vec<String>>,
    pub ip_is_private: Option<bool>,
    pub port: Option<i32>,
    pub process_name: Option<Vec<String>>,
}

/// The routing section.
#[derive(Clone, Debug, PartialEq, Eq)]
pub struct Route {
    pub auto_detect_interface: bool,
    pub default_domain_resolver: Option<String>,
    pub final_field: Option<String>,
    pub rules: Vec<RouteRule>,
}

/// A whole configuration document. It is well formed where every outbound
/// carries the discriminant of its kind and at most one outbound is a VLESS
/// outbound; the merge operations keep it so.
#[derive(Clone, Debug, PartialEq, Eq)]
pub struct SingBoxConfig {
    pub dns: Dns,
    pub inbounds: Vec<Inbound>,
    pub log: Log,
    pub outbounds: Vec<Outbound>,
    pub route: Route,
}

/// The text that stands in every string field of a default value.
pub open spec fn placeholder() -> Seq<char> {
    "default"@
}

/// The address of a resolver that is never rewritten.
pub open spec fn local_address() -> Seq<char> {
    "local"@
}

/// The discriminant of a direct outbound.
pub open spec fn direct_type() -> Seq<char> {
    "direct"@
}

/// The discriminant of a DNS outbound.
pub open spec fn dns_type() -> Seq<char> {
    "dns"@
}

/// The discriminant of a SOCKS outbound.
pub open spec fn socks_type() -> Seq<char> {
    "socks"@
}

/// The discriminant of a VLESS outbound.
pub open spec fn vless_type() -> Seq<char> {
    "vless"@
}

impl Clone for DnsServer {
    fn clone(&self) -> (copy: Self)
        ensures
            copy == *self,
    {
        DnsServer { address: self.address.clone(), tag: self.tag.clone() }
    }
}

impl Clone for DirectOutbound {
    fn clone(&self) -> (copy: Self)
        ensures
            copy == *self,
    {
        DirectOutbound { tag: self.tag.clone(), type_field: self.type_field.clone() }
    }
}

impl Clone for DnsOutbound {
    fn clone(&self) -> (copy: Self)
        ensures
            copy == *self,
    {
        DnsOutbound { tag: self.tag.clone(), type_field: self.type_field.clone() }
    }
}

impl Clone for RealityConfig {
    fn clone(&self) -> (copy: Self)
        ensures
            copy == *self,
    {
        let public_key = match &self.public_key {
            Some(key) => Some(key.clone()),
            None => None,
        };
        RealityConfig { enabled: self.enabled, public_key, short_id: self.short_id.clone() }
    }
}

impl Clone for UtlsConfig {
    fn clone(&self) -> (copy: Self)
        ensures
            copy == *self,
    {
        UtlsConfig { enabled: self.enabled, fingerprint: self.fingerprint.clone() }
    }
}

impl Clone for TlsConfig {
    fn clone(&self) -> (copy: Self)
        ensures
            copy == *self,
    {
        let reality = match &self.reality {
            Some(reality) => Some(reality.clone()),
            None => None,
        };
        let utls = match &self.utls {
            Some(utls) => Some(utls.clone()),
            None => None,
        };
        TlsConfig { enabled: self.enabled, reality, server_name: self.server_name.clone(), utls }
    }
}

impl Clone for VlessOutbound {
    fn clone(&self) -> (copy: Self)
        ensures
            copy == *self,
    {
        let tls = match &self.tls {
            Some(tls) => Some(tls.clone()),
            None => None,
        };
        VlessOutbound {
            packet_encoding: self.packet_encoding.clone(),
            server: self.server.clone(),
            server_port: self.server_port,
            tls,
            type_field: self.type_field.clone(),
            tag: self.tag.clone(),
            uuid: self.uuid.clone(),
        }
    }
}

impl Clone for Outbound {
    fn clone(&self) -> (copy: Self)
        ensures
            copy == *self,
    {
        match self {
            Outbound::Direct(direct) => Outbound::Direct(direct.clone()),
            Outbound::Dns(dns) => Outbound::Dns(dns.clone()),
            Outbound::Vless(vless) => Outbound::Vless(vless.clone()),
        }
    }
}

impl Default for DnsServer {
    /// A resolver whose address and tag are the placeholder.
    fn default() -> (server: Self)
        ensures
            server@ == (DnsServerView { address: placeholder(), tag: placeholder() }),
    {
        DnsServer { address: "default".to_owned(), tag: "default".to_owned() }
    }
}

impl Default for Dns {
    /// A DNS section without resolvers.
    fn default() -> (dns: Self)
        ensures
            dns.final_field@ == placeholder(),
            dns.servers@.len() == 0,
    {
        Dns { final_field: "default".to_owned(), servers: Vec::new() }
    }
}

impl Default for DirectOutbound {
    fn default() -> (outbound: Self)
        ensures
            outbound@ == (DirectView { tag: placeholder(), type_field: direct_type() }),
    {
        DirectOutbound { tag: "default".to_owned(), type_field: "direct".to_owned() }
    }
}

impl Default for SocksOutbound {
    fn default() -> (outbound: Self)
        ensures
            outbound.tag@ == placeholder(),
            outbound.type_field@ == socks_type(),
            outbound.server@ == placeholder(),
            outbound.server_port == 0,
    {
        SocksOutbound {
            tag: "default".to_owned(),
            type_field: "socks".to_owned(),
            server: "default".to_owned(),
            server_port: 0,
        }
    }
}

impl Default for DnsOutbound {
    fn default() -> (outbound: Self)
        ensures
            outbound@ == (DnsOutboundView { tag: placeholder(), type_field: dns_type() }),
    {
        DnsOutbound { tag: "default".to_owned(), type_field: "dns".to_owned() }
    }
}

impl Default for VlessOutbound {
    /// The outbound that is added where a document has none of this kind:
    /// every string is the placeholder, the port is 0, and there is no TLS.
    fn default() -> (outbound: Self)
        ensures
            outbound@ == VlessView::fresh(),
    {
        VlessOutbound {
            packet_encoding: "default".to_owned(),
            server: "default".to_owned(),
            server_port: 0,
            tls: None,
            type_field: "vless".to_owned(),
            tag: "default".to_owned(),
            uuid: "default".to_owned(),
        }
    }
}

} // verus!
