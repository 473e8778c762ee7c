//! What holds of the grammar and of the reading of links.
use vstd::prelude::*;
use crate::url_parser::grammar::{
    char_at, decimal_value, distinct_keys, has_key, lemma_run_end_is_maximal,
    lemma_run_end_unique, max_port, params_from, parse_link,
    parse_params, run_end, separator_at, split_pair, valid_credential, valid_host, valid_pairs,
    valid_port,
    valid_protocol, valid_token, CharClass, LinkView, ParseError,
};

verus! {

/// A query pair written out: the key, `=`, the value.
pub open spec fn pair_text(pair: (Seq<char>, Seq<char>)) -> Seq<char> {
    pair.0 + seq!['='] + pair.1
}

/// A query written out: the pairs in order, with `&` between them.
pub open spec fn query_text(pairs: Seq<(Seq<char>, Seq<char>)>) -> Seq<char>
    decreases pairs.len(),
{
    if pairs.len() == 0 {
        Seq::empty()
    } else if pairs.len() == 1 {
        pair_text(pairs[0])
    } else {
        pair_text(pairs[0]) + seq!['&'] + query_text(pairs.drop_first())
    }
}

/// A link written out. `with_query` says whether a `?` follows the port.
pub open spec fn link_text(
    protocol: Seq<char>,
    credential: Seq<char>,
    host: Seq<char>,
    digits: Seq<char>,
    with_query: bool,
    pairs: Seq<(Seq<char>, Seq<char>)>,
) -> Seq<char> {
    protocol + seq![':', '/', '/'] + credential + seq!['@'] + host + seq![':'] + digits + (
    if with_query {
        seq!['?'] + query_text(pairs)
    } else {
        Seq::empty()
    })
}

/// A pair of two tokens, written out, is split into the same two tokens.
pub proof fn lemma_split_pair_of_pair_text(pair: (Seq<char>, Seq<char>))
    requires
        valid_token(pair.0),
        valid_token(pair.1),
    ensures
        split_pair(pair_text(pair)) == Some(pair),
        CharClass::NotAmpersand.all(pair_text(pair)),
        pair_text(pair).len() == pair.0.len() + 1 + pair.1.len(),
{
    let text = pair_text(pair);
    let k = pair.0.len() as int;
    assert forall|i: int| 0 <= i < k implies CharClass::NotEquals.holds(#[trigger] text[i]) by {
        assert(text[i] == pair.0[i]);
    }
    assert(text[k] == '=');
    lemma_run_end_unique(text, 0, k, CharClass::NotEquals);
    assert forall|i: int| k + 1 <= i < text.len() implies CharClass::NotEquals.holds(
        #[trigger] text[i],
    ) by {
        assert(text[i] == pair.1[i - k - 1]);
    }
    lemma_run_end_unique(text, k + 1, text.len() as int, CharClass::NotEquals);
    assert(text.subrange(0, k) =~= pair.0);
    assert(text.subrange(k + 1, text.len() as int) =~= pair.1);
    assert forall|i: int| 0 <= i < text.len() implies CharClass::NotAmpersand.holds(
        #[trigger] text[i],
    ) by {
        if i < k {
            assert(text[i] == pair.0[i]);
        } else if i > k {
            assert(text[i] == pair.1[i - k - 1]);
        }
    }
}

/// Reading goes on where it stopped: after `before`, with the pairs `seen`
/// already read, the written-out pairs `rest` are read as they were written.
pub proof fn lemma_params_from_reads_pairs(
    before: Seq<char>,
    seen: Seq<(Seq<char>, Seq<char>)>,
    rest: Seq<(Seq<char>, Seq<char>)>,
)
    requires
        rest.len() > 0,
        valid_pairs(rest),
        distinct_keys(seen + rest),
    ensures
        params_from(before + query_text(rest), before.len() as int, seen) == Ok::<_, ParseError>(
            seen + rest,
        ),
    decreases rest.len(),
{
    let query = before + query_text(rest);
    let start = before.len() as int;
    let first = rest[0];
    let text = pair_text(first);
    lemma_split_pair_of_pair_text(first);
    let end = start + text.len();
    assert((seen + rest)[seen.len() as int] == first);
    assert(!has_key(seen, first.0)) by {
        if has_key(seen, first.0) {
            let i = choose|i: int| 0 <= i < seen.len() && (#[trigger] seen[i]).0 == first.0;
            assert((seen + rest)[i] == seen[i]);
        }
    }
    assert forall|i: int| start <= i < end implies CharClass::NotAmpersand.holds(
        #[trigger] query[i],
    ) by {
        assert(query[i] == text[i - start]);
    }
    if rest.len() == 1 {
        assert(query =~= before + text);
        lemma_run_end_unique(query, start, end, CharClass::NotAmpersand);
        assert(query.subrange(start, end) =~= text);
        assert(seen.push(first) =~= seen + rest);
    } else {
        let tail = rest.drop_first();
        assert(query =~= before + text + seq!['&'] + query_text(tail));
        assert(query[end] == '&');
        lemma_run_end_unique(query, start, end, CharClass::NotAmpersand);
        assert(query.subrange(start, end) =~= text);
        let before_tail = before + text + seq!['&'];
        assert(query =~= before_tail + query_text(tail));
        assert(seen.push(first) + tail =~= seen + rest);
        assert(valid_pairs(tail)) by {
            assert forall|i: int| 0 <= i < tail.len() implies valid_token((#[trigger] tail[i]).0)
                && valid_token(tail[i].1) by {
                assert(tail[i] == rest[i + 1]);
            }
        }
        lemma_params_from_reads_pairs(before_tail, seen.push(first), tail);
    }
}

/// A written-out query is read back as the pairs it was written from.
pub proof fn lemma_parse_params_reads_query(pairs: Seq<(Seq<char>, Seq<char>)>)
    requires
        valid_pairs(pairs),
        distinct_keys(pairs),
    ensures
        parse_params(query_text(pairs)) == Ok::<_, ParseError>(pairs),
{
    if pairs.len() > 0 {
        lemma_split_pair_of_pair_text(pairs[0]);
        assert(Seq::<(Seq<char>, Seq<char>)>::empty() + pairs =~= pairs);
        assert(Seq::<char>::empty() + query_text(pairs) =~= query_text(pairs));
        lemma_params_from_reads_pairs(Seq::empty(), Seq::empty(), pairs);
    } else {
        assert(pairs =~= Seq::empty());
    }
}

/// The pairs of a query that is cut off after them: each is followed by `&`.
pub open spec fn query_prefix(pairs: Seq<(Seq<char>, Seq<char>)>) -> Seq<char> {
    if pairs.len() == 0 {
        Seq::empty()
    } else {
        query_text(pairs) + seq!['&']
    }
}

/// Whether `segment` has no `=`, or more than one.
pub open spec fn wrong_number_of_equals(segment: Seq<char>) -> bool {
    ||| CharClass::NotEquals.all(segment)
    ||| exists|i: int, j: int|
        0 <= i < j < segment.len() && #[trigger] segment[i] == '=' && #[trigger] segment[j] == '='
}

/// A piece without `=`, or with more than one, is no pair.
pub proof fn lemma_split_pair_needs_one_equals(segment: Seq<char>)
    requires
        wrong_number_of_equals(segment),
    ensures
        split_pair(segment) is None,
{
    let eq = run_end(segment, 0, CharClass::NotEquals);
    lemma_run_end_is_maximal(segment, 0, CharClass::NotEquals);
    if CharClass::NotEquals.all(segment) {
        lemma_run_end_unique(segment, 0, segment.len() as int, CharClass::NotEquals);
    } else {
        let (i, j) = choose|i: int, j: int|
            0 <= i < j < segment.len() && #[trigger] segment[i] == '=' && #[trigger] segment[j]
                == '=';
        assert(eq <= i) by {
            if i < eq {
                assert(CharClass::NotEquals.holds(segment[i]));
            }
        }
        if eq + 1 <= segment.len() {
            lemma_run_end_is_maximal(segment, eq + 1, CharClass::NotEquals);
            let end = run_end(segment, eq + 1, CharClass::NotEquals);
            if end == segment.len() {
                assert(CharClass::NotEquals.holds(segment[j]));
            }
        }
    }
}

/// Reading stops at the first piece that is no pair: after `before`, with
/// the pairs `seen` already read, the written-out pairs `good` are read, and
/// the piece `bad` that follows them is reported with its index.
pub proof fn lemma_params_from_reports_bad_piece(
    before: Seq<char>,
    seen: Seq<(Seq<char>, Seq<char>)>,
    good: Seq<(Seq<char>, Seq<char>)>,
    bad: Seq<char>,
    after: Seq<char>,
)
    requires
        valid_pairs(good),
        distinct_keys(seen + good),
        CharClass::NotAmpersand.all(bad),
        split_pair(bad) is None,
        after.len() == 0 || after[0] == '&',
    ensures
        params_from(before + query_prefix(good) + bad + after, before.len() as int, seen) == Err::<
            Seq<(Seq<char>, Seq<char>)>,
            _,
        >(ParseError::InvalidParam((seen.len() + good.len()) as usize)),
    decreases good.len(),
{
    let query = before + query_prefix(good) + bad + after;
    let start = before.len() as int;
    if good.len() == 0 {
        let end = start + bad.len();
        assert(query =~= before + bad + after);
        assert forall|i: int| start <= i < end implies CharClass::NotAmpersand.holds(
            #[trigger] query[i],
        ) by {
            assert(query[i] == bad[i - start]);
        }
        if end < query.len() {
            assert(query[end] == after[0]);
        }
        lemma_run_end_unique(query, start, end, CharClass::NotAmpersand);
        assert(query.subrange(start, end) =~= bad);
    } else {
        let first = good[0];
        let text = pair_text(first);
        let tail = good.drop_first();
        lemma_split_pair_of_pair_text(first);
        let end = start + text.len();
        assert(query_prefix(good) =~= text + seq!['&'] + query_prefix(tail));
        assert(query =~= before + text + seq!['&'] + query_prefix(tail) + bad + after);
        assert((seen + good)[seen.len() as int] == first);
        assert(!has_key(seen, first.0)) by {
            if has_key(seen, first.0) {
                let i = choose|i: int| 0 <= i < seen.len() && (#[trigger] seen[i]).0 == first.0;
                assert((seen + good)[i] == seen[i]);
            }
        }
        assert forall|i: int| start <= i < end implies CharClass::NotAmpersand.holds(
            #[trigger] query[i],
        ) by {
            assert(query[i] == text[i - start]);
        }
        assert(query[end] == '&');
        lemma_run_end_unique(query, start, end, CharClass::NotAmpersand);
        assert(query.subrange(start, end) =~= text);
        let before_tail = before + text + seq!['&'];
        assert(query =~= before_tail + query_prefix(tail) + bad + after);
        assert(seen.push(first) + tail =~= seen + good);
        assert(valid_pairs(tail)) by {
            assert forall|i: int| 0 <= i < tail.len() implies valid_token((#[trigger] tail[i]).0)
                && valid_token(tail[i].1) by {
                assert(tail[i] == good[i + 1]);
            }
        }
        lemma_params_from_reports_bad_piece(before_tail, seen.push(first), tail, bad, after);
    }
}

/// A query with a piece that has no `=`, or more than one, is refused, and
/// the error names that piece: the pairs `good` before it are in order, the
/// piece `bad` is not, and whatever comes after it is not looked at.
pub proof fn lemma_malformed_pair_is_reported(
    good: Seq<(Seq<char>, Seq<char>)>,
    bad: Seq<char>,
    after: Seq<char>,
)
    requires
        valid_pairs(good),
        distinct_keys(good),
        CharClass::NotAmpersand.all(bad),
        wrong_number_of_equals(bad),
        after.len() == 0 || after[0] == '&',
        (query_prefix(good) + bad + after).len() > 0,
    ensures
        parse_params(query_prefix(good) + bad + after) == Err::<Seq<(Seq<char>, Seq<char>)>, _>(
            ParseError::InvalidParam(good.len() as usize),
        ),
{
    lemma_split_pair_needs_one_equals(bad);
    let none = Seq::<(Seq<char>, Seq<char>)>::empty();
    assert(none + good =~= good);
    assert(Seq::<char>::empty() + query_prefix(good) + bad + after =~= query_prefix(good) + bad
        + after);
    lemma_params_from_reports_bad_piece(Seq::empty(), none, good, bad, after);
}

/// Every link of the grammar is read back exactly: the protocol, the
/// credential and the host as written, the port as the number its digits
/// denote, and one parameter for each `key=value` pair, in order.
pub proof fn lemma_parse_link_round_trip(
    protocol: Seq<char>,
    credential: Seq<char>,
    host: Seq<char>,
    digits: Seq<char>,
    with_query: bool,
    pairs: Seq<(Seq<char>, Seq<char>)>,
)
    requires
        valid_protocol(protocol),
        valid_credential(credential),
        valid_host(host),
        valid_port(digits),
        valid_pairs(pairs),
        distinct_keys(pairs),
        pairs.len() > 0 ==> with_query,
    ensures
        parse_link(link_text(protocol, credential, host, digits, with_query, pairs)) == Ok::<
            _,
            ParseError,
        >(
            LinkView {
                protocol,
                credential,
                host,
                port: decimal_value(digits) as int,
                params: pairs,
            },
        ),
{
    let s = link_text(protocol, credential, host, digits, with_query, pairs);
    let p_end = protocol.len() as int;
    let c_start = p_end + 3;
    let c_end = c_start + credential.len();
    let h_start = c_end + 1;
    let h_end = h_start + host.len();
    let d_start = h_end + 1;
    let d_end = d_start + digits.len();
    let query = query_text(pairs);
    assert(s.len() == d_end + (if with_query { 1 + query.len() } else { 0 }));
    assert forall|i: int| 0 <= i < p_end implies CharClass::Protocol.holds(#[trigger] s[i]) by {
        assert(s[i] == protocol[i]);
    }
    assert(s[p_end] == ':' && s[p_end + 1] == '/' && s[p_end + 2] == '/');
    lemma_run_end_unique(s, 0, p_end, CharClass::Protocol);
    assert(separator_at(s, p_end));
    assert forall|i: int| c_start <= i < c_end implies CharClass::Credential.holds(
        #[trigger] s[i],
    ) by {
        assert(s[i] == credential[i - c_start]);
    }
    assert(s[c_end] == '@');
    lemma_run_end_unique(s, c_start, c_end, CharClass::Credential);
    assert(char_at(s, c_end, '@'));
    assert forall|i: int| h_start <= i < h_end implies CharClass::Host.holds(#[trigger] s[i]) by {
        assert(s[i] == host[i - h_start]);
    }
    assert(s[h_end] == ':');
    lemma_run_end_unique(s, h_start, h_end, CharClass::Host);
    assert(s.subrange(h_start, h_end) =~= host);
    assert(char_at(s, h_end, ':'));
    assert forall|i: int| d_start <= i < d_end implies CharClass::Digit.holds(#[trigger] s[i]) by {
        assert(s[i] == digits[i - d_start]);
    }
    if with_query {
        assert(s[d_end] == '?');
        assert(s.subrange(d_end + 1, s.len() as int) =~= query);
    }
    lemma_run_end_unique(s, d_start, d_end, CharClass::Digit);
    assert(s.subrange(d_start, d_end) =~= digits);
    assert(s.subrange(0, p_end) =~= protocol);
    assert(s.subrange(c_start, c_end) =~= credential);
    lemma_parse_params_reads_query(pairs);
    if !with_query {
        assert(pairs =~= Seq::empty());
    }
}

/// What was split into a key and a value was the key, `=`, and the value,
/// and both are tokens.
pub proof fn lemma_split_pair_is_of_the_grammar(segment: Seq<char>)
    requires
        split_pair(segment) is Some,
        CharClass::NotAmpersand.all(segment),
    ensures
        valid_token(split_pair(segment)->Some_0.0),
        valid_token(split_pair(segment)->Some_0.1),
        pair_text(split_pair(segment)->Some_0) == segment,
{
    let eq = run_end(segment, 0, CharClass::NotEquals);
    lemma_run_end_is_maximal(segment, 0, CharClass::NotEquals);
    lemma_run_end_is_maximal(segment, eq + 1, CharClass::NotEquals);
    let pair = split_pair(segment)->Some_0;
    assert(pair_text(pair) =~= segment);
}

/// What was read from a query, from `start` on and after the pairs `seen`,
/// is `seen` followed by at least one more pair; the new pairs are made of
/// tokens, their keys are fresh, and written out they are the query from
/// `start` on.
pub proof fn lemma_params_from_is_of_the_grammar(
    query: Seq<char>,
    start: int,
    seen: Seq<(Seq<char>, Seq<char>)>,
)
    requires
        0 <= start <= query.len(),
        params_from(query, start, seen) is Ok,
        distinct_keys(seen),
    ensures
        ({
            let all = params_from(query, start, seen)->Ok_0;
            let read = all.skip(seen.len() as int);
            &&& all.len() > seen.len()
            &&& all.take(seen.len() as int) == seen
            &&& valid_pairs(read)
            &&& distinct_keys(all)
            &&& query_text(read) == query.subrange(start, query.len() as int)
        }),
    decreases query.len() - start,
{
    let end = run_end(query, start, CharClass::NotAmpersand);
    lemma_run_end_is_maximal(query, start, CharClass::NotAmpersand);
    let segment = query.subrange(start, end);
    assert(CharClass::NotAmpersand.all(segment)) by {
        assert forall|i: int| 0 <= i < segment.len() implies CharClass::NotAmpersand.holds(
            #[trigger] segment[i],
        ) by {
            assert(segment[i] == query[start + i]);
        }
    }
    lemma_split_pair_is_of_the_grammar(segment);
    let pair = split_pair(segment)->Some_0;
    let longer = seen.push(pair);
    assert(distinct_keys(longer)) by {
        assert forall|i: int, j: int| 0 <= i < j < longer.len() implies (#[trigger] longer[i]).0 != (
        #[trigger] longer[j]).0 by {
            if j == seen.len() {
                assert(longer[i] == seen[i]);
            }
        }
    }
    let all = params_from(query, start, seen)->Ok_0;
    let read = all.skip(seen.len() as int);
    if end == query.len() {
        assert(all == longer);
        assert(read =~= seq![pair]);
        assert(all.take(seen.len() as int) =~= seen);
    } else {
        lemma_params_from_is_of_the_grammar(query, end + 1, longer);
        let rest = all.skip(longer.len() as int);
        assert(all.take(seen.len() as int) =~= seen) by {
            assert(all.take(longer.len() as int) == longer);
            assert forall|i: int| 0 <= i < seen.len() implies all[i] == seen[i] by {
                assert(all.take(longer.len() as int)[i] == longer[i]);
            }
        }
        assert(read[0] == pair) by {
            assert(all.take(longer.len() as int)[seen.len() as int] == longer[seen.len() as int]);
        }
        assert(read.drop_first() =~= rest);
        assert(valid_pairs(read)) by {
            assert forall|i: int| 0 <= i < read.len() implies valid_token((#[trigger] read[i]).0)
                && valid_token(read[i].1) by {
                if i > 0 {
                    assert(read[i] == rest[i - 1]);
                }
            }
        }
        assert(query[end] == '&');
        assert(query.subrange(start, query.len() as int) =~= segment + seq!['&'] + query.subrange(
            end + 1,
            query.len() as int,
        ));
    }
}

/// What was read from a query is made of tokens, has no key twice, and
/// written out it is the query.
pub proof fn lemma_parsed_params_are_of_the_grammar(query: Seq<char>)
    requires
        parse_params(query) is Ok,
    ensures
        valid_pairs(parse_params(query)->Ok_0),
        distinct_keys(parse_params(query)->Ok_0),
        query_text(parse_params(query)->Ok_0) == query,
{
    if query.len() > 0 {
        let none = Seq::<(Seq<char>, Seq<char>)>::empty();
        lemma_params_from_is_of_the_grammar(query, 0, none);
        let all = parse_params(query)->Ok_0;
        assert(all.skip(0) =~= all);
        assert(query.subrange(0, query.len() as int) =~= query);
    } else {
        assert(query =~= Seq::empty());
    }
}

/// Only links of the grammar are read: the parts of a link that was read are
/// those of the grammar, and written out, with the digits that stood for the
/// port, they are the text that was read.
pub proof fn lemma_parsed_link_is_of_the_grammar(s: Seq<char>)
    requires
        parse_link(s) is Ok,
    ensures
        ({
            let link = parse_link(s)->Ok_0;
            &&& link.well_formed()
            &&& exists|digits: Seq<char>, with_query: bool|
                #![trigger link_text(link.protocol, link.credential, link.host, digits, with_query, link.params)]
                {
                    &&& valid_port(digits)
                    &&& link.port == decimal_value(digits)
                    &&& link.params.len() > 0 ==> with_query
                    &&& s == link_text(
                        link.protocol,
                        link.credential,
                        link.host,
                        digits,
                        with_query,
                        link.params,
                    )
                }
        }),
{
    let link = parse_link(s)->Ok_0;
    let p_end = run_end(s, 0, CharClass::Protocol);
    let c_start = p_end + 3;
    let c_end = run_end(s, c_start, CharClass::Credential);
    let h_start = c_end + 1;
    let h_end = run_end(s, h_start, CharClass::Host);
    let d_start = h_end + 1;
    let d_end = run_end(s, d_start, CharClass::Digit);
    lemma_run_end_is_maximal(s, 0, CharClass::Protocol);
    lemma_run_end_is_maximal(s, c_start, CharClass::Credential);
    lemma_run_end_is_maximal(s, h_start, CharClass::Host);
    lemma_run_end_is_maximal(s, d_start, CharClass::Digit);
    let digits = s.subrange(d_start, d_end);
    let with_query = d_end < s.len();
    let query = if with_query {
        s.subrange(d_end + 1, s.len() as int)
    } else {
        Seq::empty()
    };
    lemma_parsed_params_are_of_the_grammar(query);
    assert(valid_protocol(link.protocol)) by {
        assert forall|i: int| 0 <= i < link.protocol.len() implies CharClass::Protocol.holds(
            #[trigger] link.protocol[i],
        ) by {
            assert(link.protocol[i] == s[i]);
        }
    }
    assert(valid_credential(link.credential)) by {
        assert forall|i: int| 0 <= i < link.credential.len() implies CharClass::Credential.holds(
            #[trigger] link.credential[i],
        ) by {
            assert(link.credential[i] == s[c_start + i]);
        }
    }
    if !with_query {
        assert(link.params.len() == 0) by {
            assert(query.len() == 0);
        }
    }
    assert(s =~= link_text(
        link.protocol,
        link.credential,
        link.host,
        digits,
        with_query,
        link.params,
    ));
}

} // verus!
