//! The parts of a document as mathematical values.
use vstd::prelude::*;
use crate::models::{
    placeholder, vless_type, direct_type, dns_type, DirectOutbound, Dns, DnsOutbound, DnsServer,
    Inbound, Log, Outbound, RealityConfig, Route, SingBoxConfig, TlsConfig, UtlsConfig,
    VlessOutbound,
};

verus! {

/// A resolver.
pub struct DnsServerView {
    pub address: Seq<char>,
    pub tag: Seq<char>,
}

/// The DNS section.
pub struct DnsView {
    pub final_field: Seq<char>,
    pub servers: Seq<DnsServerView>,
}

/// A direct outbound.
pub struct DirectView {
    pub tag: Seq<char>,
    pub type_field: Seq<char>,
}

/// A DNS outbound.
pub struct DnsOutboundView {
    pub tag: Seq<char>,
    pub type_field: Seq<char>,
}

/// The REALITY part of a TLS configuration.
pub struct RealityView {
    pub enabled: bool,
    pub public_key: Option<Seq<char>>,
    pub short_id: Seq<char>,
}

/// The uTLS part of a TLS configuration.
pub struct UtlsView {
    pub enabled: bool,
    pub fingerprint: Seq<char>,
}

/// A TLS configuration.
pub struct TlsView {
    pub enabled: bool,
    pub reality: Option<RealityView>,
    pub server_name: Seq<char>,
    pub utls: Option<UtlsView>,
}

/// A VLESS outbound.
pub struct VlessView {
    pub packet_encoding: Seq<char>,
    pub server: Seq<char>,
    pub server_port: int,
    pub tls: Option<TlsView>,
    pub type_field: Seq<char>,
    pub tag: Seq<char>,
    pub uuid: Seq<char>,
}

/// An outbound of one of the supported kinds.
pub enum OutboundView {
    Direct(DirectView),
    Dns(DnsOutboundView),
    Vless(VlessView),
}

/// A document: the DNS section and the outbounds as mathematical values, the
/// other sections as they are.
pub struct ConfigView {
    pub dns: DnsView,
    pub inbounds: Seq<Inbound>,
    pub log: Log,
    pub outbounds: Seq<OutboundView>,
    pub route: Route,
}

/// Whether every outbound of the list carries the discriminant of its kind.
pub open spec fn all_well_formed(outbounds: Seq<OutboundView>) -> bool {
    forall|i: int| 0 <= i < outbounds.len() ==> (#[trigger] outbounds[i]).well_formed()
}

/// Whether at most one outbound of the list is a VLESS outbound.
pub open spec fn at_most_one_vless(outbounds: Seq<OutboundView>) -> bool {
    forall|i: int, j: int|
        0 <= i < j < outbounds.len() ==> !(#[trigger] outbounds[i] is Vless
            && #[trigger] outbounds[j] is Vless)
}

impl ConfigView {
    /// Whether the document is well formed: every outbound carries the
    /// discriminant of its kind, and at most one of them is a VLESS outbound.
    pub open spec fn well_formed(self) -> bool {
        all_well_formed(self.outbounds) && at_most_one_vless(self.outbounds)
    }
}

impl VlessView {
    /// The outbound that is added where a document has none of this kind.
    pub open spec fn fresh() -> VlessView {
        VlessView {
            packet_encoding: placeholder(),
            server: placeholder(),
            server_port: 0,
            tls: None,
            type_field: vless_type(),
            tag: placeholder(),
            uuid: placeholder(),
        }
    }
}

impl OutboundView {
    /// Whether the discriminant string is the one of the variant.
    pub open spec fn well_formed(self) -> bool {
        match self {
            OutboundView::Direct(direct) => direct.type_field == direct_type(),
            OutboundView::Dns(dns) => dns.type_field == dns_type(),
            OutboundView::Vless(vless) => vless.type_field == vless_type(),
        }
    }
}

impl View for DnsServer {
    type V = DnsServerView;

    open spec fn view(&self) -> DnsServerView {
        DnsServerView { address: self.address@, tag: self.tag@ }
    }
}

/// The resolvers of a list, each as a mathematical value.
pub open spec fn servers_view(servers: Seq<DnsServer>) -> Seq<DnsServerView> {
    Seq::new(servers.len(), |i: int| servers[i]@)
}

impl View for Dns {
    type V = DnsView;

    open spec fn view(&self) -> DnsView {
        DnsView { final_field: self.final_field@, servers: servers_view(self.servers@) }
    }
}

impl View for DirectOutbound {
    type V = DirectView;

    open spec fn view(&self) -> DirectView {
        DirectView { tag: self.tag@, type_field: self.type_field@ }
    }
}

impl View for DnsOutbound {
    type V = DnsOutboundView;

    open spec fn view(&self) -> DnsOutboundView {
        DnsOutboundView { tag: self.tag@, type_field: self.type_field@ }
    }
}

impl View for RealityConfig {
    type V = RealityView;

    open spec fn view(&self) -> RealityView {
        RealityView {
            enabled: self.enabled,
            public_key: match self.public_key {
                Some(key) => Some(key@),
                None => None,
            },
            short_id: self.short_id@,
        }
    }
}

impl View for UtlsConfig {
    type V = UtlsView;

    open spec fn view(&self) -> UtlsView {
        UtlsView { enabled: self.enabled, fingerprint: self.fingerprint@ }
    }
}

impl View for TlsConfig {
    type V = TlsView;

    open spec fn view(&self) -> TlsView {
        TlsView {
            enabled: self.enabled,
            reality: match self.reality {
                Some(reality) => Some(reality@),
                None => None,
            },
            server_name: self.server_name@,
            utls: match self.utls {
                Some(utls) => Some(utls@),
                None => None,
            },
        }
    }
}

impl View for VlessOutbound {
    type V = VlessView;

    open spec fn view(&self) -> VlessView {
        VlessView {
            packet_encoding: self.packet_encoding@,
            server: self.server@,
            server_port: self.server_port as int,
            tls: match self.tls {
                Some(tls) => Some(tls@),
                None => None,
            },
            type_field: self.type_field@,
            tag: self.tag@,
            uuid: self.uuid@,
        }
    }
}

impl View for Outbound {
    type V = OutboundView;

    open spec fn view(&self) -> OutboundView {
        match self {
            Outbound::Direct(direct) => OutboundView::Direct(direct@),
            Outbound::Dns(dns) => OutboundView::Dns(dns@),
            Outbound::Vless(vless) => OutboundView::Vless(vless@),
        }
    }
}

/// The outbounds of a list, each as a mathematical value.
pub open spec fn outbounds_view(outbounds: Seq<Outbound>) -> Seq<OutboundView> {
    Seq::new(outbounds.len(), |i: int| outbounds[i]@)
}

impl View for SingBoxConfig {
    type V = ConfigView;

    open spec fn view(&self) -> ConfigView {
        ConfigView {
            dns: self.dns@,
            inbounds: self.inbounds@,
            log: self.log,
            outbounds: outbounds_view(self.outbounds@),
            route: self.route,
        }
    }
}

} // verus!
