//! Merging a parsed link, or a resolver address, into a document.
//!
//! The outbound operations work on the first VLESS outbound of the document
//! and add one where there is none, so that they never leave two where there
//! was at most one. They overwrite what the link determines (server, port,
//! credential, TLS) and keep everything else. The DNS operation rewrites the
//! first resolver whose address is not `local`, and adds a resolver where
//! there is no such one.
use vstd::prelude::*;
use crate::models::view::{
    outbounds_view, servers_view, ConfigView, DnsServerView, DnsView, OutboundView, RealityView,
    TlsView, UtlsView, VlessView,
};
use crate::models::laws::lemma_enrich_keeps_config_well_formed;
use crate::models::{
    local_address, placeholder, vless_type, DnsServer, Outbound, RealityConfig, SingBoxConfig,
    TlsConfig, UtlsConfig, VlessOutbound,
};
use crate::url_parser::grammar::{lookup, parse_link, LinkView, ParseError};
use crate::url_parser::{parse_url, ParsedLink};

verus! {

/// Why a document could not be enriched.
#[derive(Debug, PartialEq, Eq)]
pub enum EnrichError {
    /// The text is not a share link.
    Link(ParseError),
    /// The link is well formed, but its protocol, carried here, is not one
    /// that can be merged.
    UnsupportedProtocol(String),
}

/// The text of `value`, or the empty text where there is none.
pub open spec fn or_empty(value: Option<Seq<char>>) -> Seq<char> {
    match value {
        Some(text) => text,
        None => Seq::empty(),
    }
}

/// The REALITY part that a link asks for: present exactly when the parameter
/// `security` is `reality`, with the public key from `pbk` and the short id
/// from `sid`, each empty where the link does not give it.
pub open spec fn reality_from_link(link: LinkView) -> Option<RealityView> {
    if lookup(link.params, "security"@) == Some("reality"@) {
        Some(
            RealityView {
                enabled: true,
                public_key: Some(or_empty(lookup(link.params, "pbk"@))),
                short_id: or_empty(lookup(link.params, "sid"@)),
            },
        )
    } else {
        None
    }
}

/// The uTLS part that a link asks for: present exactly when the link has the
/// parameter `fp`, which is then the fingerprint.
pub open spec fn utls_from_link(link: LinkView) -> Option<UtlsView> {
    match lookup(link.params, "fp"@) {
        Some(fingerprint) => Some(UtlsView { enabled: true, fingerprint }),
        None => None,
    }
}

/// The TLS configuration that a link asks for. It is enabled, and its server
/// name is the parameter `sni`, or empty.
pub open spec fn tls_from_link(link: LinkView) -> TlsView {
    TlsView {
        enabled: true,
        reality: reality_from_link(link),
        server_name: or_empty(lookup(link.params, "sni"@)),
        utls: utls_from_link(link),
    }
}

/// A VLESS outbound after a link has been merged into it.
pub open spec fn enriched_vless(outbound: VlessView, link: LinkView) -> VlessView {
    VlessView {
        server: link.host,
        server_port: link.port,
        uuid: link.credential,
        tls: Some(tls_from_link(link)),
        ..outbound
    }
}

/// The position of the first VLESS outbound at or after `start`, or the
/// length of the list where there is none.
pub open spec fn first_vless_from(outbounds: Seq<OutboundView>, start: int) -> int
    decreases outbounds.len() - start,
{
    if 0 <= start < outbounds.len() && !(outbounds[start] is Vless) {
        first_vless_from(outbounds, start + 1)
    } else {
        start
    }
}

/// The position of the first VLESS outbound, or the length of the list.
pub open spec fn first_vless(outbounds: Seq<OutboundView>) -> int {
    first_vless_from(outbounds, 0)
}

/// Whether the list has a VLESS outbound.
pub open spec fn has_vless(outbounds: Seq<OutboundView>) -> bool {
    first_vless(outbounds) < outbounds.len()
}

/// The list with a fresh VLESS outbound at its end where it had none.
pub open spec fn with_vless(outbounds: Seq<OutboundView>) -> Seq<OutboundView> {
    if has_vless(outbounds) {
        outbounds
    } else {
        outbounds.push(OutboundView::Vless(VlessView::fresh()))
    }
}

/// The list with its first VLESS outbound replaced.
pub open spec fn replaced_vless(outbounds: Seq<OutboundView>, outbound: VlessView) -> Seq<
    OutboundView,
> {
    outbounds.update(first_vless(outbounds), OutboundView::Vless(outbound))
}

/// The outbounds of a document after a VLESS link has been merged in.
pub open spec fn enriched_outbounds(outbounds: Seq<OutboundView>, link: LinkView) -> Seq<
    OutboundView,
> {
    let located = with_vless(outbounds);
    replaced_vless(located, enriched_vless(located[first_vless(located)]->Vless_0, link))
}

/// A document after a VLESS link has been merged in.
pub open spec fn enriched_config(config: ConfigView, link: LinkView) -> ConfigView {
    ConfigView { outbounds: enriched_outbounds(config.outbounds, link), ..config }
}

/// The position of the first resolver at or after `start` whose address is
/// not `local`, or the length of the list where there is none.
pub open spec fn first_remote_from(servers: Seq<DnsServerView>, start: int) -> int
    decreases servers.len() - start,
{
    if 0 <= start < servers.len() && servers[start].address == local_address() {
        first_remote_from(servers, start + 1)
    } else {
        start
    }
}

/// The position of the first resolver whose address is not `local`, or the
/// length of the list.
pub open spec fn first_remote(servers: Seq<DnsServerView>) -> int {
    first_remote_from(servers, 0)
}

/// The resolvers after the address `address` has been merged in.
pub open spec fn enriched_servers(servers: Seq<DnsServerView>, address: Seq<char>) -> Seq<
    DnsServerView,
> {
    let at = first_remote(servers);
    if at < servers.len() {
        servers.update(at, DnsServerView { address, tag: servers[at].tag })
    } else {
        servers.push(DnsServerView { address, tag: placeholder() })
    }
}

/// A document after a resolver address has been merged in.
pub open spec fn enriched_dns(config: ConfigView, address: Seq<char>) -> ConfigView {
    ConfigView {
        dns: DnsView { servers: enriched_servers(config.dns.servers, address), ..config.dns },
        ..config
    }
}

/// Where the first VLESS outbound lies, if there is one.
pub proof fn lemma_first_vless(outbounds: Seq<OutboundView>, start: int)
    requires
        0 <= start <= outbounds.len(),
    ensures
        start <= first_vless_from(outbounds, start) <= outbounds.len(),
        forall|i: int|
            start <= i < first_vless_from(outbounds, start) ==> !(#[trigger] outbounds[i] is Vless),
        first_vless_from(outbounds, start) < outbounds.len() ==> outbounds[first_vless_from(
            outbounds,
            start,
        )] is Vless,
    decreases outbounds.len() - start,
{
    if start < outbounds.len() && !(outbounds[start] is Vless) {
        lemma_first_vless(outbounds, start + 1);
    }
}

/// A position with a VLESS outbound, or the end of the list, before which
/// there is no VLESS outbound, is the one that `first_vless_from` finds.
pub proof fn lemma_first_vless_unique(outbounds: Seq<OutboundView>, start: int, at: int)
    requires
        0 <= start <= at <= outbounds.len(),
        forall|i: int| start <= i < at ==> !(#[trigger] outbounds[i] is Vless),
        at < outbounds.len() ==> outbounds[at] is Vless,
    ensures
        first_vless_from(outbounds, start) == at,
    decreases at - start,
{
    if start < at {
        lemma_first_vless_unique(outbounds, start + 1, at);
    }
}

/// Whether the text of `text` is that of `literal`.
pub fn text_is(text: &String, literal: &str) -> (same: bool)
    ensures
        same == (text@ == literal@),
{
    let wanted: String = literal.to_owned();
    *text == wanted
}

/// A copy of `value`, or the empty string where there is none.
fn owned_or_empty(value: Option<&String>) -> (text: String)
    ensures
        text@ == or_empty(
            match value {
                Some(v) => Some(v@),
                None => None,
            },
        ),
{
    match value {
        Some(v) => v.clone(),
        None => String::new(),
    }
}

impl TlsConfig {
    /// The TLS configuration that `link` asks for.
    pub fn from_link(link: &ParsedLink) -> (tls: TlsConfig)
        ensures
            tls@ == tls_from_link(link@),
    {
        let reality = match link.param("security") {
            Some(security) => {
                if text_is(security, "reality") {
                    Some(
                        RealityConfig {
                            enabled: true,
                            public_key: Some(owned_or_empty(link.param("pbk"))),
                            short_id: owned_or_empty(link.param("sid")),
                        },
                    )
                } else {
                    None
                }
            },
            None => None,
        };
        let utls = match link.param("fp") {
            Some(fingerprint) => Some(
                UtlsConfig { enabled: true, fingerprint: fingerprint.clone() },
            ),
            None => None,
        };
        TlsConfig { enabled: true, reality, server_name: owned_or_empty(link.param("sni")), utls }
    }
}

impl VlessOutbound {
    /// Merges `link` into the outbound: the server, the port and the
    /// credential become those of the link, and the TLS configuration is
    /// built anew from its parameters. The tag, the packet encoding and the
    /// discriminant stay.
    pub fn enrich(&mut self, link: &ParsedLink)
        ensures
            final(self)@ == enriched_vless(old(self)@, link@),
    {
        self.server = link.host.clone();
        self.server_port = link.port;
        self.uuid = link.credential.clone();
        self.tls = Some(TlsConfig::from_link(link));
    }
}

/// The position of the first VLESS outbound of `outbounds`, or their number
/// where there is none.
pub fn find_vless(outbounds: &Vec<Outbound>) -> (at: usize)
    ensures
        at == first_vless(outbounds_view(outbounds@)),
        at <= outbounds.len(),
        at < outbounds.len() ==> outbounds@[at as int] is Vless,
{
    let ghost views = outbounds_view(outbounds@);
    let mut at: usize = 0;
    while at < outbounds.len()
        invariant
            at <= outbounds.len(),
            views == outbounds_view(outbounds@),
            first_vless(views) == first_vless_from(views, at as int),
        decreases outbounds.len() - at,
    {
        let found = match &outbounds[at] {
            Outbound::Vless(_) => true,
            _ => false,
        };
        assert(found == (views[at as int] is Vless));
        if found {
            return at;
        }
        at = at + 1;
    }
    at
}

impl SingBoxConfig {
    /// Hands out a copy of the first VLESS outbound. Where the document has
    /// none, a default one is added at the end of the outbounds first.
    /// Nothing else changes.
    pub fn get_vless_outbound(&mut self) -> (outbound: VlessOutbound)
        ensures
            final(self)@ == (ConfigView {
                outbounds: with_vless(old(self)@.outbounds),
                ..old(self)@
            }),
            has_vless(old(self)@.outbounds) ==> *final(self) == *old(self),
            has_vless(final(self)@.outbounds),
            OutboundView::Vless(outbound@) == final(self)@.outbounds[first_vless(
                final(self)@.outbounds,
            )],
    {
        let at = find_vless(&self.outbounds);
        let ghost before = outbounds_view(self.outbounds@);
        proof {
            lemma_first_vless(before, 0);
        }
        if at < self.outbounds.len() {
            match &self.outbounds[at] {
                Outbound::Vless(found) => found.clone(),
                _ => vstd::pervasive::unreached(),
            }
        } else {
            let fresh = VlessOutbound::default();
            self.outbounds.push(Outbound::Vless(fresh.clone()));
            proof {
                let after = outbounds_view(self.outbounds@);
                assert(after =~= before.push(OutboundView::Vless(VlessView::fresh())));
                assert forall|i: int| 0 <= i < before.len() implies !(#[trigger] after[i] is Vless) by {
                    assert(after[i] == before[i]);
                }
                lemma_first_vless_unique(after, 0, before.len() as int);
            }
            fresh
        }
    }

    /// Puts `vless` in the place of the first VLESS outbound. Nothing else
    /// changes.
    pub fn update_vless_outbound(&mut self, vless: VlessOutbound)
        requires
            has_vless(old(self)@.outbounds),
        ensures
            final(self)@ == (ConfigView {
                outbounds: replaced_vless(old(self)@.outbounds, vless@),
                ..old(self)@
            }),
    {
        let at = find_vless(&self.outbounds);
        let ghost before = outbounds_view(self.outbounds@);
        self.outbounds.set(at, Outbound::Vless(vless));
        assert(outbounds_view(self.outbounds@) =~= replaced_vless(before, vless@));
    }

    /// Merges a parsed link into the document.
    ///
    /// Only VLESS links can be merged. For one, the first VLESS outbound, or
    /// a default one added at the end where there is none, takes the link's
    /// server, port, credential and TLS configuration; every other outbound
    /// and every other section stays as it is. For a link of another
    /// protocol the document is left untouched and the protocol is reported.
    /// A well-formed document stays well formed.
    pub fn enrich_from_link(&mut self, link: &ParsedLink) -> (result: Result<(), EnrichError>)
        ensures
            match result {
                Ok(_) => link@.protocol == vless_type() && final(self)@ == enriched_config(
                    old(self)@,
                    link@,
                ),
                Err(EnrichError::UnsupportedProtocol(protocol)) => link@.protocol != vless_type()
                    && protocol@ == link@.protocol && *final(self) == *old(self),
                Err(EnrichError::Link(_)) => false,
            },
            old(self)@.well_formed() ==> final(self)@.well_formed(),
    {
        if !text_is(&link.protocol, "vless") {
            return Err(EnrichError::UnsupportedProtocol(link.protocol.clone()));
        }
        let mut vless = self.get_vless_outbound();
        vless.enrich(link);
        self.update_vless_outbound(vless);
        proof {
            if old(self)@.well_formed() {
                lemma_enrich_keeps_config_well_formed(old(self)@, link@);
            }
        }
        Ok(())
    }

    /// Reads `url` as a share link and merges it into the document; see
    /// [`SingBoxConfig::enrich_from_link`]. A text that is not a link leaves
    /// the document untouched.
    pub fn enrich_from_url(&mut self, url: String) -> (result: Result<(), EnrichError>)
        ensures
            match result {
                Ok(_) => parse_link(url@) matches Ok(link) && link.protocol == vless_type()
                    && final(self)@ == enriched_config(old(self)@, link),
                Err(EnrichError::UnsupportedProtocol(protocol)) => parse_link(url@) matches Ok(link)
                    && link.protocol != vless_type() && protocol@ == link.protocol && *final(self)
                    == *old(self),
                Err(EnrichError::Link(e)) => parse_link(url@) == Err::<LinkView, _>(e)
                    && *final(self) == *old(self),
            },
            old(self)@.well_formed() ==> final(self)@.well_formed(),
    {
        match parse_url(&url) {
            Ok(link) => self.enrich_from_link(&link),
            Err(e) => Err(EnrichError::Link(e)),
        }
    }

    /// Makes `dns` the address of the resolver in use: the first resolver
    /// whose address is not `local` gets this address and keeps its tag.
    /// Where there is no such resolver, one with this address and the tag
    /// `default` is added at the end. Everything else stays as it is, and the
    /// call always succeeds. A well-formed document stays well formed.
    pub fn enrich_from_dns(&mut self, dns: String) -> (result: Result<(), EnrichError>)
        ensures
            result is Ok,
            final(self)@ == enriched_dns(old(self)@, dns@),
            old(self)@.well_formed() ==> final(self)@.well_formed(),
    {
        let ghost before = servers_view(self.dns.servers@);
        let mut at: usize = 0;
        while at < self.dns.servers.len()
            invariant
                at <= self.dns.servers.len(),
                *self == *old(self),
                before == servers_view(self.dns.servers@),
                first_remote(before) == first_remote_from(before, at as int),
            decreases self.dns.servers.len() - at,
        {
            assert(before[at as int] == self.dns.servers@[at as int]@);
            if !text_is(&self.dns.servers[at].address, "local") {
                let tag = self.dns.servers[at].tag.clone();
                self.dns.servers.set(at, DnsServer { address: dns, tag });
                assert(servers_view(self.dns.servers@) =~= enriched_servers(before, dns@));
                return Ok(());
            }
            at = at + 1;
        }
        self.dns.servers.push(DnsServer { address: dns, tag: "default".to_owned() });
        assert(servers_view(self.dns.servers@) =~= enriched_servers(before, dns@));
        Ok(())
    }
}

} // verus!
