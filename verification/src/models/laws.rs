//! What holds of merging and decoding, for every document and every link.
use vstd::prelude::*;
use crate::models::decode::{decoded_outbound, field, text_of, DecodeErrorView, WireValue};
use crate::models::{direct_type, dns_type, vless_type};
use crate::models::enrich::{
    enriched_config, enriched_dns, enriched_outbounds, enriched_servers, enriched_vless,
    first_remote, first_remote_from, first_vless, has_vless, lemma_first_vless,
    lemma_first_vless_unique, or_empty, reality_from_link, replaced_vless, tls_from_link,
    with_vless,
};
use crate::models::view::{
    all_well_formed, at_most_one_vless, ConfigView, DnsServerView, OutboundView, RealityView,
    VlessView,
};
use crate::models::{local_address, placeholder};
use crate::url_parser::grammar::{lookup, LinkView};

verus! {

/// Replacing the first VLESS outbound by another one does not move it.
pub proof fn lemma_replacing_keeps_position(outbounds: Seq<OutboundView>, outbound: VlessView)
    requires
        has_vless(outbounds),
    ensures
        first_vless(replaced_vless(outbounds, outbound)) == first_vless(outbounds),
        has_vless(replaced_vless(outbounds, outbound)),
{
    lemma_first_vless(outbounds, 0);
    let at = first_vless(outbounds);
    let after = replaced_vless(outbounds, outbound);
    assert forall|i: int| 0 <= i < at implies !(#[trigger] after[i] is Vless) by {
        assert(after[i] == outbounds[i]);
    }
    lemma_first_vless_unique(after, 0, at);
}

/// Where a list has no VLESS outbound, the one added at its end is the first.
pub proof fn lemma_added_outbound_is_first(outbounds: Seq<OutboundView>)
    requires
        !has_vless(outbounds),
    ensures
        first_vless(with_vless(outbounds)) == outbounds.len(),
        has_vless(with_vless(outbounds)),
{
    lemma_first_vless(outbounds, 0);
    let after = with_vless(outbounds);
    assert forall|i: int| 0 <= i < outbounds.len() implies !(#[trigger] after[i] is Vless) by {
        assert(after[i] == outbounds[i]);
    }
    lemma_first_vless_unique(after, 0, outbounds.len() as int);
}

/// Merging a link into a VLESS outbound twice gives what merging it once
/// gives.
pub proof fn lemma_enriched_vless_idempotent(outbound: VlessView, link: LinkView)
    ensures
        enriched_vless(enriched_vless(outbound, link), link) == enriched_vless(outbound, link),
{
}

/// Merging the same link into a document twice gives the document that
/// merging it once gives.
pub proof fn lemma_enrich_idempotent(config: ConfigView, link: LinkView)
    ensures
        enriched_config(enriched_config(config, link), link) == enriched_config(config, link),
{
    let located = with_vless(config.outbounds);
    if !has_vless(config.outbounds) {
        lemma_added_outbound_is_first(config.outbounds);
    }
    let at = first_vless(located);
    lemma_first_vless(located, 0);
    let merged = enriched_vless(located[at]->Vless_0, link);
    let once = enriched_outbounds(config.outbounds, link);
    assert(once == replaced_vless(located, merged));
    lemma_replacing_keeps_position(located, merged);
    assert(with_vless(once) == once);
    assert(once[at] == OutboundView::Vless(merged));
    lemma_enriched_vless_idempotent(located[at]->Vless_0, link);
    assert(enriched_outbounds(once, link) =~= once);
}

/// Merging a link into a document without a VLESS outbound adds exactly one
/// outbound, at the end: the default one with the link merged in. The
/// outbounds that were there stay, in their order.
pub proof fn lemma_enrich_appends_when_absent(config: ConfigView, link: LinkView)
    requires
        !has_vless(config.outbounds),
    ensures
        enriched_config(config, link).outbounds == config.outbounds.push(
            OutboundView::Vless(enriched_vless(VlessView::fresh(), link)),
        ),
{
    lemma_added_outbound_is_first(config.outbounds);
    assert(enriched_outbounds(config.outbounds, link) =~= config.outbounds.push(
        OutboundView::Vless(enriched_vless(VlessView::fresh(), link)),
    ));
}

/// Merging a link into a document with a VLESS outbound changes that
/// outbound alone: the number of outbounds stays, and so does every outbound
/// but the first VLESS one, which takes the link's server, port, credential
/// and TLS configuration and keeps the rest.
pub proof fn lemma_enrich_overwrites_when_present(config: ConfigView, link: LinkView)
    requires
        has_vless(config.outbounds),
    ensures
        enriched_config(config, link).outbounds.len() == config.outbounds.len(),
        forall|i: int|
            0 <= i < config.outbounds.len() && i != first_vless(config.outbounds)
                ==> #[trigger] enriched_config(config, link).outbounds[i] == config.outbounds[i],
        enriched_config(config, link).outbounds[first_vless(config.outbounds)]
            == OutboundView::Vless(
            enriched_vless(config.outbounds[first_vless(config.outbounds)]->Vless_0, link),
        ),
{
    lemma_first_vless(config.outbounds, 0);
}

/// Merging a link touches nothing but the outbounds: the DNS section, the
/// inbounds, the log and the route of the document stay as they are.
pub proof fn lemma_enrich_keeps_other_sections(config: ConfigView, link: LinkView)
    ensures
        enriched_config(config, link).dns == config.dns,
        enriched_config(config, link).inbounds == config.inbounds,
        enriched_config(config, link).log == config.log,
        enriched_config(config, link).route == config.route,
{
}

/// Merging a link never makes a second VLESS outbound: a document with at
/// most one has exactly one afterwards.
pub proof fn lemma_enrich_keeps_single_vless(config: ConfigView, link: LinkView)
    requires
        at_most_one_vless(config.outbounds),
    ensures
        at_most_one_vless(enriched_config(config, link).outbounds),
        has_vless(enriched_config(config, link).outbounds),
{
    let located = with_vless(config.outbounds);
    if !has_vless(config.outbounds) {
        lemma_added_outbound_is_first(config.outbounds);
        lemma_first_vless(config.outbounds, 0);
    }
    lemma_first_vless(located, 0);
    let at = first_vless(located);
    let merged = enriched_vless(located[at]->Vless_0, link);
    lemma_replacing_keeps_position(located, merged);
    let after = enriched_config(config, link).outbounds;
    assert forall|i: int, j: int| 0 <= i < j < after.len() implies !(#[trigger] after[i] is Vless
        && #[trigger] after[j] is Vless) by {
        if after[i] is Vless && after[j] is Vless {
            assert(located[i] is Vless);
            assert(located[j] is Vless);
            if has_vless(config.outbounds) {
                assert(config.outbounds[i] is Vless && config.outbounds[j] is Vless);
            } else {
                assert(config.outbounds[i] is Vless);
            }
        }
    }
}

/// Merging a link keeps the discriminants right: where every outbound
/// carried the discriminant of its kind, every outbound does so afterwards.
pub proof fn lemma_enrich_keeps_well_formed(config: ConfigView, link: LinkView)
    requires
        all_well_formed(config.outbounds),
    ensures
        all_well_formed(enriched_config(config, link).outbounds),
{
    let located = with_vless(config.outbounds);
    if !has_vless(config.outbounds) {
        lemma_added_outbound_is_first(config.outbounds);
    }
    lemma_first_vless(located, 0);
    let at = first_vless(located);
    assert forall|i: int| 0 <= i < located.len() implies (#[trigger] located[i]).well_formed() by {
        if i < config.outbounds.len() {
            assert(located[i] == config.outbounds[i]);
        }
    }
    let after = enriched_config(config, link).outbounds;
    assert forall|i: int| 0 <= i < after.len() implies (#[trigger] after[i]).well_formed() by {
        if i != at {
            assert(after[i] == located[i]);
        } else {
            assert(located[at].well_formed());
        }
    }
}

/// Merging a link keeps a document well formed.
pub proof fn lemma_enrich_keeps_config_well_formed(config: ConfigView, link: LinkView)
    requires
        config.well_formed(),
    ensures
        enriched_config(config, link).well_formed(),
{
    lemma_enrich_keeps_single_vless(config, link);
    lemma_enrich_keeps_well_formed(config, link);
}

/// A link whose `security` is `reality` gives a REALITY part that is enabled
/// and holds the link's `pbk` and `sid`, each empty where the link lacks it.
/// A link with another `security`, or with none, gives a TLS configuration
/// without a REALITY part.
pub proof fn lemma_reality_follows_security(link: LinkView)
    ensures
        tls_from_link(link).enabled,
        lookup(link.params, "security"@) == Some("reality"@) ==> tls_from_link(link).reality
            == Some(
            RealityView {
                enabled: true,
                public_key: Some(or_empty(lookup(link.params, "pbk"@))),
                short_id: or_empty(lookup(link.params, "sid"@)),
            },
        ),
        lookup(link.params, "security"@) != Some("reality"@) ==> tls_from_link(link).reality is None,
{
}

/// Where the first resolver with another address than `local` lies.
pub proof fn lemma_first_remote(servers: Seq<DnsServerView>, start: int)
    requires
        0 <= start <= servers.len(),
    ensures
        start <= first_remote_from(servers, start) <= servers.len(),
        forall|i: int|
            start <= i < first_remote_from(servers, start) ==> (#[trigger] servers[i]).address
                == local_address(),
        first_remote_from(servers, start) < servers.len() ==> servers[first_remote_from(
            servers,
            start,
        )].address != local_address(),
    decreases servers.len() - start,
{
    if start < servers.len() && servers[start].address == local_address() {
        lemma_first_remote(servers, start + 1);
    }
}

/// A resolver with another address than `local`, or the end of the list,
/// before which every address is `local`, is what `first_remote_from` finds.
pub proof fn lemma_first_remote_unique(servers: Seq<DnsServerView>, start: int, at: int)
    requires
        0 <= start <= at <= servers.len(),
        forall|i: int| start <= i < at ==> (#[trigger] servers[i]).address == local_address(),
        at < servers.len() ==> servers[at].address != local_address(),
    ensures
        first_remote_from(servers, start) == at,
    decreases at - start,
{
    if start < at {
        lemma_first_remote_unique(servers, start + 1, at);
    }
}

/// Where every resolver has the address `local`, merging an address adds a
/// resolver with this address and the tag `default` at the end, and keeps
/// the others.
pub proof fn lemma_dns_appends_when_all_local(servers: Seq<DnsServerView>, address: Seq<char>)
    requires
        forall|i: int| 0 <= i < servers.len() ==> (#[trigger] servers[i]).address == local_address(),
    ensures
        enriched_servers(servers, address) == servers.push(
            DnsServerView { address, tag: placeholder() },
        ),
{
    lemma_first_remote_unique(servers, 0, servers.len() as int);
}

/// Where some resolver has another address than `local`, merging an address
/// adds none: the first such resolver gets the address and keeps its tag, and
/// every other resolver stays as it is.
pub proof fn lemma_dns_overwrites_first_remote(servers: Seq<DnsServerView>, address: Seq<char>)
    requires
        first_remote(servers) < servers.len(),
    ensures
        enriched_servers(servers, address).len() == servers.len(),
        enriched_servers(servers, address)[first_remote(servers)] == (DnsServerView {
            address,
            tag: servers[first_remote(servers)].tag,
        }),
        forall|i: int|
            0 <= i < servers.len() && i != first_remote(servers) ==> #[trigger] enriched_servers(
                servers,
                address,
            )[i] == servers[i],
{
    lemma_first_remote(servers, 0);
}

/// Merging the same address twice gives what merging it once gives, for
/// every address but `local`.
pub proof fn lemma_dns_idempotent(config: ConfigView, address: Seq<char>)
    requires
        address != local_address(),
    ensures
        enriched_dns(enriched_dns(config, address), address) == enriched_dns(config, address),
{
    let servers = config.dns.servers;
    let once = enriched_servers(servers, address);
    lemma_first_remote(servers, 0);
    let at = first_remote(servers);
    assert forall|i: int| 0 <= i < at implies (#[trigger] once[i]).address == local_address() by {
        assert(once[i] == servers[i]);
    }
    lemma_first_remote_unique(once, 0, at);
    assert(enriched_servers(once, address) =~= once);
}

/// An address that was merged in is overwritten by the next one: after two
/// addresses other than `local`, the list is the one that the second address
/// alone would have given.
pub proof fn lemma_dns_second_address_wins(
    config: ConfigView,
    first: Seq<char>,
    second: Seq<char>,
)
    requires
        first != local_address(),
    ensures
        enriched_dns(enriched_dns(config, first), second) == enriched_dns(config, second),
{
    let servers = config.dns.servers;
    let once = enriched_servers(servers, first);
    lemma_first_remote(servers, 0);
    let at = first_remote(servers);
    assert forall|i: int| 0 <= i < at implies (#[trigger] once[i]).address == local_address() by {
        assert(once[i] == servers[i]);
    }
    lemma_first_remote_unique(once, 0, at);
    assert(enriched_servers(once, second) =~= enriched_servers(servers, second));
}

/// Merging an address touches nothing but the resolvers: the tag of the
/// resolver used last and every other section stay as they are.
pub proof fn lemma_dns_keeps_other_sections(config: ConfigView, address: Seq<char>)
    ensures
        enriched_dns(config, address).dns.final_field == config.dns.final_field,
        enriched_dns(config, address).inbounds == config.inbounds,
        enriched_dns(config, address).log == config.log,
        enriched_dns(config, address).outbounds == config.outbounds,
        enriched_dns(config, address).route == config.route,
{
}

/// Merging an address keeps a document well formed.
pub proof fn lemma_dns_keeps_config_well_formed(config: ConfigView, address: Seq<char>)
    requires
        config.well_formed(),
    ensures
        enriched_dns(config, address).well_formed(),
{
}

/// An entry is decoded exactly when it has a textual `tag` and its `type` is
/// the text `direct`, `dns` or `vless`. The outbound is then of the kind that
/// the `type` names, and its tag is the entry's.
pub proof fn lemma_decoded_outbound_follows_type(entry: Seq<(String, WireValue)>)
    ensures
        decoded_outbound(entry) is Ok <==> text_of(field(entry, "tag"@)) is Some && ({
            ||| text_of(field(entry, "type"@)) == Some(direct_type())
            ||| text_of(field(entry, "type"@)) == Some(dns_type())
            ||| text_of(field(entry, "type"@)) == Some(vless_type())
        }),
        decoded_outbound(entry) matches Ok(outbound) ==> {
            &&& outbound is Direct <==> text_of(field(entry, "type"@)) == Some(direct_type())
            &&& outbound is Dns <==> text_of(field(entry, "type"@)) == Some(dns_type())
            &&& outbound is Vless <==> text_of(field(entry, "type"@)) == Some(vless_type())
            &&& Some(
                match outbound {
                    OutboundView::Direct(direct) => direct.tag,
                    OutboundView::Dns(dns) => dns.tag,
                    OutboundView::Vless(vless) => vless.tag,
                },
            ) == text_of(field(entry, "tag"@))
        },
{
    reveal_strlit("direct");
    reveal_strlit("dns");
    reveal_strlit("vless");
    assert(direct_type().len() == 6 && dns_type().len() == 3 && vless_type().len() == 5);
}

/// Why an entry is refused: for the missing `tag` where it has no textual
/// one, whatever else it holds; else for the missing `type` where it has
/// none; else for the unknown kind, which is the `type` where that is a text.
/// No entry is given a kind that it does not name.
pub proof fn lemma_decoded_outbound_errors(entry: Seq<(String, WireValue)>)
    ensures
        text_of(field(entry, "tag"@)) is None ==> decoded_outbound(entry) == Err::<OutboundView, _>(
            DecodeErrorView::MissingField("tag"@),
        ),
        text_of(field(entry, "tag"@)) is Some && field(entry, "type"@) is None ==> decoded_outbound(
            entry,
        ) == Err::<OutboundView, _>(DecodeErrorView::MissingField("type"@)),
        text_of(field(entry, "tag"@)) is Some && field(entry, "type"@) is Some && text_of(
            field(entry, "type"@),
        ) is None ==> decoded_outbound(entry) == Err::<OutboundView, _>(
            DecodeErrorView::UnknownOutboundType(None),
        ),
        text_of(field(entry, "tag"@)) is Some && text_of(field(entry, "type"@)) is Some && text_of(
            field(entry, "type"@),
        ) != Some(direct_type()) && text_of(field(entry, "type"@)) != Some(dns_type()) && text_of(
            field(entry, "type"@),
        ) != Some(vless_type()) ==> decoded_outbound(entry) == Err::<OutboundView, _>(
            DecodeErrorView::UnknownOutboundType(text_of(field(entry, "type"@))),
        ),
{
}

/// An outbound that was decoded carries the discriminant of its kind.
pub proof fn lemma_decoded_outbound_is_well_formed(entry: Seq<(String, WireValue)>)
    ensures
        decoded_outbound(entry) matches Ok(outbound) ==> outbound.well_formed(),
{
}

} // verus!
