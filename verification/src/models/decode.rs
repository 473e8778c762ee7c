//! Decoding an outbound from its persisted form.
//!
//! An outbound is stored as an object whose field `type` says which kind of
//! outbound it is, so the kind has to be read before the shape of the rest is
//! known. The object arrives here as a list of named values, in which a name
//! stands for the first value stored under it.
use vstd::prelude::*;
use crate::models::view::{
    DirectView, DnsOutboundView, OutboundView, RealityView, TlsView, UtlsView, VlessView,
};
use crate::models::{
    direct_type, dns_type, vless_type, DirectOutbound, DnsOutbound, Outbound, RealityConfig,
    TlsConfig, UtlsConfig, VlessOutbound,
};

verus! {

/// A value of the persisted form, as far as decoding looks at it.
#[derive(Debug, PartialEq, Eq)]
pub enum WireValue {
    /// An explicit null.
    Null,
    Bool(bool),
    /// A number that is a signed integer of 64 bits.
    Integer(i64),
    Text(String),
    /// An object: its fields in order.
    Object(Vec<(String, WireValue)>),
    /// Anything else: a list, or a number that is no such integer.
    Other,
}

/// Why an entry is not an outbound.
#[derive(Clone, Debug, PartialEq, Eq)]
pub enum DecodeError {
    /// The entry lacks the named field: it has no text under `tag`, or
    /// nothing at all under `type`.
    MissingField(String),
    /// The entry's `type` is none of the supported kinds. Its text is carried
    /// here; there is none where the `type` is not a text.
    UnknownOutboundType(Option<String>),
}

/// A decoding error as a mathematical value.
pub enum DecodeErrorView {
    MissingField(Seq<char>),
    UnknownOutboundType(Option<Seq<char>>),
}

impl View for DecodeError {
    type V = DecodeErrorView;

    open spec fn view(&self) -> DecodeErrorView {
        match self {
            DecodeError::MissingField(name) => DecodeErrorView::MissingField(name@),
            DecodeError::UnknownOutboundType(kind) => DecodeErrorView::UnknownOutboundType(
                match kind {
                    Some(text) => Some(text@),
                    None => None,
                },
            ),
        }
    }
}

/// The identifier that a VLESS entry without a textual `uuid` gets.
pub open spec fn default_uuid() -> Seq<char> {
    "default_uuid"@
}

/// The packet encoding that a VLESS entry without a textual
/// `packet_encoding` gets.
pub open spec fn default_encoding() -> Seq<char> {
    "default_encoding"@
}

/// The server that a VLESS entry without a textual `server` gets.
pub open spec fn default_server() -> Seq<char> {
    "default_server"@
}

/// The port that a VLESS entry without an integer `server_port` gets.
pub open spec fn default_port() -> int {
    8080
}

/// The value stored under `name`: the first one, where there are several.
pub open spec fn field(fields: Seq<(String, WireValue)>, name: Seq<char>) -> Option<WireValue>
    decreases fields.len(),
{
    if fields.len() == 0 {
        None
    } else if fields[0].0@ == name {
        Some(fields[0].1)
    } else {
        field(fields.drop_first(), name)
    }
}

/// The text of a field, where the field is there and is a text.
pub open spec fn text_of(value: Option<WireValue>) -> Option<Seq<char>> {
    match value {
        Some(WireValue::Text(text)) => Some(text@),
        _ => None,
    }
}

/// The truth value of a field, where the field is there and is one.
pub open spec fn bool_of(value: Option<WireValue>) -> Option<bool> {
    match value {
        Some(WireValue::Bool(b)) => Some(b),
        _ => None,
    }
}

/// The number of a field, where the field is there and is an integer.
pub open spec fn integer_of(value: Option<WireValue>) -> Option<i64> {
    match value {
        Some(WireValue::Integer(n)) => Some(n),
        _ => None,
    }
}

/// A text that may be left out: an absent or null field is no text, a text is
/// itself, and anything else is malformed (the outer `None`).
pub open spec fn optional_text_of(value: Option<WireValue>) -> Option<Option<Seq<char>>> {
    match value {
        None => Some(None),
        Some(WireValue::Null) => Some(None),
        Some(WireValue::Text(text)) => Some(Some(text@)),
        _ => None,
    }
}

/// The REALITY part that `value` holds, or `None` where it is malformed: it
/// has to be an object with a truth value `enabled`, a text `short_id`, and
/// `public_key` either left out or a text.
pub open spec fn decoded_reality(value: WireValue) -> Option<RealityView> {
    match value {
        WireValue::Object(fields) => match (
            bool_of(field(fields@, "enabled"@)),
            optional_text_of(field(fields@, "public_key"@)),
            text_of(field(fields@, "short_id"@)),
        ) {
            (Some(enabled), Some(public_key), Some(short_id)) => Some(
                RealityView { enabled, public_key, short_id },
            ),
            _ => None,
        },
        _ => None,
    }
}

/// The uTLS part that `value` holds, or `None` where it is malformed: it has
/// to be an object with a truth value `enabled` and a text `fingerprint`.
pub open spec fn decoded_utls(value: WireValue) -> Option<UtlsView> {
    match value {
        WireValue::Object(fields) => match (
            bool_of(field(fields@, "enabled"@)),
            text_of(field(fields@, "fingerprint"@)),
        ) {
            (Some(enabled), Some(fingerprint)) => Some(UtlsView { enabled, fingerprint }),
            _ => None,
        },
        _ => None,
    }
}

/// A REALITY part that may be left out: an absent or null field is no part,
/// and a malformed one is malformed (the outer `None`).
pub open spec fn optional_reality(value: Option<WireValue>) -> Option<Option<RealityView>> {
    match value {
        None => Some(None),
        Some(WireValue::Null) => Some(None),
        Some(part) => match decoded_reality(part) {
            Some(reality) => Some(Some(reality)),
            None => None,
        },
    }
}

/// A uTLS part that may be left out, as for the REALITY part.
pub open spec fn optional_utls(value: Option<WireValue>) -> Option<Option<UtlsView>> {
    match value {
        None => Some(None),
        Some(WireValue::Null) => Some(None),
        Some(part) => match decoded_utls(part) {
            Some(utls) => Some(Some(utls)),
            None => None,
        },
    }
}

/// The TLS configuration that `value` holds, or `None` where it is
/// malformed: it has to be an object with a truth value `enabled`, a text
/// `server_name`, and the parts `reality` and `utls` each left out or well
/// formed.
pub open spec fn decoded_tls(value: WireValue) -> Option<TlsView> {
    match value {
        WireValue::Object(fields) => match (
            bool_of(field(fields@, "enabled"@)),
            optional_reality(field(fields@, "reality"@)),
            text_of(field(fields@, "server_name"@)),
            optional_utls(field(fields@, "utls"@)),
        ) {
            (Some(enabled), Some(reality), Some(server_name), Some(utls)) => Some(
                TlsView { enabled, reality, server_name, utls },
            ),
            _ => None,
        },
        _ => None,
    }
}

/// The text `value`, or `default` where there is none.
pub open spec fn text_or(value: Option<Seq<char>>, default: Seq<char>) -> Seq<char> {
    match value {
        Some(text) => text,
        None => default,
    }
}

/// The VLESS outbound with the tag `tag` that an entry holds. Each field with
/// a value of the wrong kind, or without one, gets its default; a port is cut
/// to 32 bits; a malformed TLS configuration is left out.
pub open spec fn decoded_vless(entry: Seq<(String, WireValue)>, tag: Seq<char>) -> VlessView {
    VlessView {
        packet_encoding: text_or(text_of(field(entry, "packet_encoding"@)), default_encoding()),
        server: text_or(text_of(field(entry, "server"@)), default_server()),
        server_port: match integer_of(field(entry, "server_port"@)) {
            Some(port) => (port as i32) as int,
            None => default_port(),
        },
        tls: match field(entry, "tls"@) {
            Some(tls) => decoded_tls(tls),
            None => None,
        },
        type_field: vless_type(),
        tag,
        uuid: text_or(text_of(field(entry, "uuid"@)), default_uuid()),
    }
}

/// The outbound with the tag `tag` and the kind `kind` that an entry holds.
/// Only `direct`, `dns` and `vless` are kinds; there is no kind that stands
/// in for another text.
pub open spec fn decoded_kind(entry: Seq<(String, WireValue)>, tag: Seq<char>, kind: Seq<char>)
    -> Result<OutboundView, DecodeErrorView> {
    if kind == direct_type() {
        Ok(OutboundView::Direct(DirectView { tag, type_field: direct_type() }))
    } else if kind == dns_type() {
        Ok(OutboundView::Dns(DnsOutboundView { tag, type_field: dns_type() }))
    } else if kind == vless_type() {
        Ok(OutboundView::Vless(decoded_vless(entry, tag)))
    } else {
        Err(DecodeErrorView::UnknownOutboundType(Some(kind)))
    }
}

/// The outbound that an entry holds. The entry needs a textual `tag`, and
/// then a `type`: without one the entry is refused for the missing field.
/// The `type` has to be the text of a supported kind, which decides the
/// rest; any other value, a text or not, is an unknown kind.
pub open spec fn decoded_outbound(entry: Seq<(String, WireValue)>) -> Result<
    OutboundView,
    DecodeErrorView,
> {
    match text_of(field(entry, "tag"@)) {
        None => Err(DecodeErrorView::MissingField("tag"@)),
        Some(tag) => match field(entry, "type"@) {
            None => Err(DecodeErrorView::MissingField("type"@)),
            Some(WireValue::Text(kind)) => decoded_kind(entry, tag, kind@),
            Some(_) => Err(DecodeErrorView::UnknownOutboundType(None)),
        },
    }
}

/// Looks up the value stored under `name`.
pub fn find_field<'a>(fields: &'a Vec<(String, WireValue)>, name: &str) -> (value: Option<
    &'a WireValue,
>)
    ensures
        match value {
            Some(v) => field(fields@, name@) == Some(*v),
            None => field(fields@, name@) is None,
        },
{
    let wanted: String = name.to_owned();
    let mut i: usize = 0;
    assert(fields@.skip(0) =~= fields@);
    while i < fields.len()
        invariant
            i <= fields.len(),
            wanted@ == name@,
            field(fields@, name@) == field(fields@.skip(i as int), name@),
        decreases fields.len() - i,
    {
        let ghost rest = fields@.skip(i as int);
        assert(rest[0] == fields@[i as int]);
        assert(rest.drop_first() =~= fields@.skip(i + 1));
        if fields[i].0 == wanted {
            return Some(&fields[i].1);
        }
        i = i + 1;
    }
    assert(fields@.skip(i as int).len() == 0);
    None
}

/// The text stored under `name`, if there is one.
pub fn text_field(fields: &Vec<(String, WireValue)>, name: &str) -> (text: Option<String>)
    ensures
        match text {
            Some(t) => text_of(field(fields@, name@)) == Some(t@),
            None => text_of(field(fields@, name@)) is None,
        },
{
    match find_field(fields, name) {
        Some(WireValue::Text(text)) => Some(text.clone()),
        _ => None,
    }
}

/// The truth value stored under `name`, if there is one.
pub fn bool_field(fields: &Vec<(String, WireValue)>, name: &str) -> (value: Option<bool>)
    ensures
        value == bool_of(field(fields@, name@)),
{
    match find_field(fields, name) {
        Some(WireValue::Bool(b)) => Some(*b),
        _ => None,
    }
}

/// The integer stored under `name`, if there is one.
pub fn integer_field(fields: &Vec<(String, WireValue)>, name: &str) -> (value: Option<i64>)
    ensures
        value == integer_of(field(fields@, name@)),
{
    match find_field(fields, name) {
        Some(WireValue::Integer(n)) => Some(*n),
        _ => None,
    }
}

/// The text stored under `name`, or a copy of `default`.
fn text_field_or(fields: &Vec<(String, WireValue)>, name: &str, default: &str) -> (text: String)
    ensures
        text@ == text_or(text_of(field(fields@, name@)), default@),
{
    match text_field(fields, name) {
        Some(text) => text,
        None => default.to_owned(),
    }
}

impl RealityConfig {
    /// Decodes the REALITY part of a TLS configuration; `None` where `value`
    /// is malformed.
    pub fn decode(value: &WireValue) -> (decoded: Option<RealityConfig>)
        ensures
            match decoded {
                Some(reality) => decoded_reality(*value) == Some(reality@),
                None => decoded_reality(*value) is None,
            },
    {
        let fields = match value {
            WireValue::Object(fields) => fields,
            _ => {
                return None;
            },
        };
        let enabled = match bool_field(fields, "enabled") {
            Some(enabled) => enabled,
            None => {
                return None;
            },
        };
        let public_key = match find_field(fields, "public_key") {
            None => None,
            Some(WireValue::Null) => None,
            Some(WireValue::Text(key)) => Some(key.clone()),
            _ => {
                return None;
            },
        };
        let short_id = match text_field(fields, "short_id") {
            Some(short_id) => short_id,
            None => {
                return None;
            },
        };
        Some(RealityConfig { enabled, public_key, short_id })
    }
}

impl UtlsConfig {
    /// Decodes the uTLS part of a TLS configuration; `None` where `value` is
    /// malformed.
    pub fn decode(value: &WireValue) -> (decoded: Option<UtlsConfig>)
        ensures
            match decoded {
                Some(utls) => decoded_utls(*value) == Some(utls@),
                None => decoded_utls(*value) is None,
            },
    {
        let fields = match value {
            WireValue::Object(fields) => fields,
            _ => {
                return None;
            },
        };
        let enabled = match bool_field(fields, "enabled") {
            Some(enabled) => enabled,
            None => {
                return None;
            },
        };
        match text_field(fields, "fingerprint") {
            Some(fingerprint) => Some(UtlsConfig { enabled, fingerprint }),
            None => None,
        }
    }
}

impl TlsConfig {
    /// Decodes a TLS configuration; `None` where `value` is malformed.
    pub fn decode(value: &WireValue) -> (decoded: Option<TlsConfig>)
        ensures
            match decoded {
                Some(tls) => decoded_tls(*value) == Some(tls@),
                None => decoded_tls(*value) is None,
            },
    {
        let fields = match value {
            WireValue::Object(fields) => fields,
            _ => {
                return None;
            },
        };
        let enabled = match bool_field(fields, "enabled") {
            Some(enabled) => enabled,
            None => {
                return None;
            },
        };
        let reality = match find_field(fields, "reality") {
            None => None,
            Some(WireValue::Null) => None,
            Some(part) => match RealityConfig::decode(part) {
                Some(reality) => Some(reality),
                None => {
                    return None;
                },
            },
        };
        let server_name = match text_field(fields, "server_name") {
            Some(server_name) => server_name,
            None => {
                return None;
            },
        };
        let utls = match find_field(fields, "utls") {
            None => None,
            Some(WireValue::Null) => None,
            Some(part) => match UtlsConfig::decode(part) {
                Some(utls) => Some(utls),
                None => {
                    return None;
                },
            },
        };
        Some(TlsConfig { enabled, reality, server_name, utls })
    }
}

impl VlessOutbound {
    /// Decodes the VLESS outbound with the tag `tag` from an entry. This
    /// cannot fail: what the entry lacks is filled in with defaults.
    pub fn decode(entry: &Vec<(String, WireValue)>, tag: String) -> (outbound: VlessOutbound)
        ensures
            outbound@ == decoded_vless(entry@, tag@),
    {
        let server_port: i32 = match integer_field(entry, "server_port") {
            Some(port) => #[verifier::truncate]
            (port as i32),
            None => 8080,
        };
        let tls = match find_field(entry, "tls") {
            Some(tls) => TlsConfig::decode(tls),
            None => None,
        };
        VlessOutbound {
            packet_encoding: text_field_or(entry, "packet_encoding", "default_encoding"),
            server: text_field_or(entry, "server", "default_server"),
            server_port,
            tls,
            type_field: "vless".to_owned(),
            tag,
            uuid: text_field_or(entry, "uuid", "default_uuid"),
        }
    }
}

impl Outbound {
    /// Decodes an outbound from an entry of the persisted form.
    ///
    /// The entry has to hold a text under `tag`; otherwise the tag is
    /// reported as missing, whatever else the entry holds. It then has to
    /// hold a `type`; an entry without one is refused for the missing field,
    /// and no kind is assumed for it. The `type` selects the kind: `direct`
    /// and `dns` take the tag alone, and `vless` takes its other fields with
    /// defaults for those that are absent. Every other `type` is reported as
    /// unknown, with its text where it is one: another text, and a value that
    /// is no text, such as a number or a null.
    pub fn deserialize_outbound(entry: &Vec<(String, WireValue)>) -> (result: Result<
        Outbound,
        DecodeError,
    >)
        ensures
            match result {
                Ok(outbound) => decoded_outbound(entry@) == Ok::<_, DecodeErrorView>(outbound@),
                Err(e) => decoded_outbound(entry@) == Err::<OutboundView, _>(e@),
            },
    {
        let tag = match text_field(entry, "tag") {
            Some(tag) => tag,
            None => {
                return Err(DecodeError::MissingField("tag".to_owned()));
            },
        };
        let kind = match find_field(entry, "type") {
            None => {
                return Err(DecodeError::MissingField("type".to_owned()));
            },
            Some(WireValue::Text(kind)) => kind.clone(),
            Some(_) => {
                return Err(DecodeError::UnknownOutboundType(None));
            },
        };
        if kind == "direct".to_owned() {
            Ok(Outbound::Direct(DirectOutbound { tag, type_field: kind }))
        } else if kind == "dns".to_owned() {
            Ok(Outbound::Dns(DnsOutbound { tag, type_field: kind }))
        } else if kind == "vless".to_owned() {
            Ok(Outbound::Vless(VlessOutbound::decode(entry, tag)))
        } else {
            Err(DecodeError::UnknownOutboundType(Some(kind)))
        }
    }
}

} // verus!
