//! Reading a share link into a typed record.
//!
//! [`parse_url`] accepts exactly the texts of the grammar in [`grammar`] and
//! hands back their parts as plain strings and numbers; nothing is decoded,
//! lowercased or trimmed on the way.
pub mod grammar;
pub mod laws;
pub mod scan;

use vstd::prelude::*;
use crate::url_parser::grammar::{
    distinct_keys, has_key, lemma_run_end_is_maximal, lookup, parse_link, parse_params,
    params_from, valid_pairs, CharClass, LinkSegment, LinkView, ParseError,
};
use crate::url_parser::laws::{
    lemma_parsed_link_is_of_the_grammar, lemma_parsed_params_are_of_the_grammar,
};
use crate::url_parser::scan::{chars_of, check_host, read_port, scan_run, scan_within};

verus! {

/// The parts of a share link. A link that [`parse_url`] hands out is well
/// formed; see [`ParsedLink::well_formed`].
#[derive(Clone, Debug, PartialEq, Eq)]
pub struct ParsedLink {
    pub protocol: String,
    pub credential: String,
    pub host: String,
    pub port: i32,
    /// The query pairs in the order of the link.
    pub params: Vec<(String, String)>,
}

/// Query pairs as sequences of characters.
pub open spec fn pairs_view(pairs: Seq<(String, String)>) -> Seq<(Seq<char>, Seq<char>)> {
    Seq::new(pairs.len(), |i: int| (pairs[i].0@, pairs[i].1@))
}

impl View for ParsedLink {
    type V = LinkView;

    open spec fn view(&self) -> LinkView {
        LinkView {
            protocol: self.protocol@,
            credential: self.credential@,
            host: self.host@,
            port: self.port as int,
            params: pairs_view(self.params@),
        }
    }
}

/// Whether one of `pairs` has the key `key`.
pub fn contains_key(pairs: &Vec<(String, String)>, key: &String) -> (found: bool)
    ensures
        found == has_key(pairs_view(pairs@), key@),
{
    let mut i: usize = 0;
    while i < pairs.len()
        invariant
            i <= pairs.len(),
            forall|j: int| 0 <= j < i ==> (#[trigger] pairs_view(pairs@)[j]).0 != key@,
        decreases pairs.len() - i,
    {
        if pairs[i].0 == *key {
            assert(pairs_view(pairs@)[i as int].0 == key@);
            return true;
        }
        i = i + 1;
    }
    false
}

/// The value that `pairs` holds under `key`: that of the first pair with
/// this key.
pub fn find_param<'a>(pairs: &'a Vec<(String, String)>, key: &str) -> (value: Option<&'a String>)
    ensures
        match value {
            Some(v) => lookup(pairs_view(pairs@), key@) == Some(v@),
            None => lookup(pairs_view(pairs@), key@) == None::<Seq<char>>,
        },
{
    let wanted: String = key.to_owned();
    let ghost all = pairs_view(pairs@);
    let mut i: usize = 0;
    assert(all.skip(0) =~= all);
    while i < pairs.len()
        invariant
            i <= pairs.len(),
            all == pairs_view(pairs@),
            wanted@ == key@,
            lookup(all, key@) == lookup(all.skip(i as int), key@),
        decreases pairs.len() - i,
    {
        let ghost rest = all.skip(i as int);
        assert(rest[0] == all[i as int]);
        assert(rest.drop_first() =~= all.skip(i + 1));
        if pairs[i].0 == wanted {
            return Some(&pairs[i].1);
        }
        i = i + 1;
    }
    assert(all.skip(i as int).len() == 0);
    None
}

impl ParsedLink {
    /// Whether the link is one of the grammar. In particular no key occurs
    /// twice among its parameters, and every key and value is non-empty and
    /// free of `=` and `&`.
    pub open spec fn well_formed(&self) -> bool {
        self@.well_formed()
    }

    /// The value of the query parameter `key`, if the link has it.
    pub fn param(&self, key: &str) -> (value: Option<&String>)
        ensures
            match value {
                Some(v) => lookup(self@.params, key@) == Some(v@),
                None => lookup(self@.params, key@) == None::<Seq<char>>,
            },
    {
        find_param(&self.params, key)
    }
}

/// Reads the query of a link: `key=value` pairs separated by `&`.
///
/// The empty query holds no pairs. A piece without `=`, with more than one,
/// or with an empty key or value is refused, and so is a key that occurred
/// before: the error names the index of that piece.
pub fn parse_url_params(params: String) -> (result: Result<Vec<(String, String)>, ParseError>)
    ensures
        match result {
            Ok(pairs) => parse_params(params@) == Ok::<_, ParseError>(pairs_view(pairs@)),
            Err(e) => parse_params(params@) == Err::<Seq<(Seq<char>, Seq<char>)>, _>(e),
        },
        result matches Ok(pairs) ==> valid_pairs(pairs_view(pairs@)) && distinct_keys(
            pairs_view(pairs@),
        ),
{
    read_query(params.as_str())
}

/// Reads a query from a string slice; see [`parse_url_params`].
pub fn read_query(query: &str) -> (result: Result<Vec<(String, String)>, ParseError>)
    ensures
        match result {
            Ok(pairs) => parse_params(query@) == Ok::<_, ParseError>(pairs_view(pairs@)),
            Err(e) => parse_params(query@) == Err::<Seq<(Seq<char>, Seq<char>)>, _>(e),
        },
        result matches Ok(pairs) ==> valid_pairs(pairs_view(pairs@)) && distinct_keys(
            pairs_view(pairs@),
        ),
{
    let chars = chars_of(query);
    let n = chars.len();
    let mut pairs: Vec<(String, String)> = Vec::new();
    assert(pairs_view(pairs@) =~= Seq::empty());
    if n == 0 {
        return Ok(pairs);
    }
    let mut start: usize = 0;
    loop
        invariant
            chars@ == query@,
            n == chars.len(),
            start <= n,
            parse_params(query@) == params_from(query@, start as int, pairs_view(pairs@)),
        decreases n - start,
    {
        let end = scan_run(&chars, start, CharClass::NotAmpersand);
        let ghost segment = query@.subrange(start as int, end as int);
        let eq = scan_within(&chars, start, end, start, CharClass::NotEquals);
        if !(start < eq && eq < end && end - eq > 1) {
            return Err(ParseError::InvalidParam(pairs.len()));
        }
        let rest = scan_within(&chars, start, end, eq + 1, CharClass::NotEquals);
        if rest != end {
            return Err(ParseError::InvalidParam(pairs.len()));
        }
        let key: String = query.substring_char(start, eq).to_owned();
        let value: String = query.substring_char(eq + 1, end).to_owned();
        assert(key@ =~= segment.subrange(0, eq - start));
        assert(value@ =~= segment.subrange(eq - start + 1, segment.len() as int));
        if contains_key(&pairs, &key) {
            return Err(ParseError::InvalidParam(pairs.len()));
        }
        let ghost before = pairs_view(pairs@);
        pairs.push((key, value));
        assert(pairs_view(pairs@) =~= before.push((key@, value@)));
        if end == n {
            proof {
                lemma_parsed_params_are_of_the_grammar(query@);
            }
            return Ok(pairs);
        }
        start = end + 1;
    }
}

/// Reads a share link of the form `protocol://credential@host:port`,
/// optionally followed by `?` and a query.
///
/// The whole text has to fit the grammar: the protocol is made of lowercase
/// letters and `+`, the credential of lowercase letters, digits and `-`, the
/// host of dot-separated labels of lowercase letters and digits, and the port
/// of decimal digits whose value is at most 2147483647. On success the parts
/// are returned as they stand in the text. Otherwise the error names the
/// first segment that does not fit, or the first query pair that is not a
/// fresh `key=value`. A link that is returned is well formed: among other
/// things, no key occurs twice among its parameters.
pub fn parse_url(url: &String) -> (result: Result<ParsedLink, ParseError>)
    ensures
        match result {
            Ok(link) => parse_link(url@) == Ok::<_, ParseError>(link@),
            Err(e) => parse_link(url@) == Err::<LinkView, _>(e),
        },
        result matches Ok(link) ==> link.well_formed(),
{
    proof {
        if parse_link(url@) is Ok {
            lemma_parsed_link_is_of_the_grammar(url@);
        }
    }
    let text = url.as_str();
    let chars = chars_of(text);
    let n = chars.len();
    let p_end = scan_run(&chars, 0, CharClass::Protocol);
    if !(0 < p_end && n - p_end >= 3 && chars[p_end] == ':' && chars[p_end + 1] == '/' && chars[p_end
        + 2] == '/') {
        return Err(ParseError::MalformedLink(LinkSegment::Protocol));
    }
    let c_start = p_end + 3;
    let c_end = scan_run(&chars, c_start, CharClass::Credential);
    if !(c_start < c_end && c_end < n && chars[c_end] == '@') {
        return Err(ParseError::MalformedLink(LinkSegment::Credential));
    }
    let h_start = c_end + 1;
    let h_end = scan_run(&chars, h_start, CharClass::Host);
    proof {
        lemma_run_end_is_maximal(chars@, h_start as int, CharClass::Host);
    }
    if !(check_host(&chars, h_start, h_end) && h_end < n && chars[h_end] == ':') {
        return Err(ParseError::MalformedLink(LinkSegment::Host));
    }
    let d_start = h_end + 1;
    let d_end = scan_run(&chars, d_start, CharClass::Digit);
    proof {
        lemma_run_end_is_maximal(chars@, d_start as int, CharClass::Digit);
    }
    let port = match read_port(&chars, d_start, d_end) {
        Some(port) => port,
        None => {
            return Err(ParseError::MalformedLink(LinkSegment::Port));
        },
    };
    if !(d_end == n || chars[d_end] == '?') {
        return Err(ParseError::MalformedLink(LinkSegment::Port));
    }
    let params = if d_end == n {
        let none: Vec<(String, String)> = Vec::new();
        assert(pairs_view(none@) =~= Seq::empty());
        none
    } else {
        match read_query(text.substring_char(d_end + 1, n)) {
            Ok(params) => params,
            Err(e) => {
                return Err(e);
            },
        }
    };
    Ok(
        ParsedLink {
            protocol: text.substring_char(0, p_end).to_owned(),
            credential: text.substring_char(c_start, c_end).to_owned(),
            host: text.substring_char(h_start, h_end).to_owned(),
            port,
            params,
        },
    )
}

} // verus!
