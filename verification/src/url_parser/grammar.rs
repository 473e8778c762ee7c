//! The share-link grammar, stated over sequences of characters.
//!
//! A link has the shape `protocol://credential@host:port`, optionally followed
//! by `?` and a query of `key=value` pairs separated by `&`. Everything in this
//! module is specification: the character classes, a left-to-right reading of a
//! text (`parse_link`), and the text that a record is written as (`link_text`).
use vstd::prelude::*;

verus! {

/// The classes of characters that the grammar tells apart.
#[derive(Clone, Copy, Debug, PartialEq, Eq, Structural)]
pub enum CharClass {
    /// A lowercase letter or `+`.
    Protocol,
    /// A lowercase letter, a digit or `-`.
    Credential,
    /// A lowercase letter or a digit.
    Label,
    /// A lowercase letter, a digit or `.`.
    Host,
    /// A decimal digit.
    Digit,
    /// Anything but `&`.
    NotAmpersand,
    /// Anything but `=`.
    NotEquals,
}

/// Whether `c` is a lowercase letter of the Latin alphabet.
pub open spec fn is_lower(c: char) -> bool {
    'a' <= c && c <= 'z'
}

/// Whether `c` is a decimal digit.
pub open spec fn is_digit(c: char) -> bool {
    '0' <= c && c <= '9'
}

impl CharClass {
    /// Whether `c` belongs to the class.
    pub open spec fn holds(self, c: char) -> bool {
        match self {
            CharClass::Protocol => is_lower(c) || c == '+',
            CharClass::Credential => is_lower(c) || is_digit(c) || c == '-',
            CharClass::Label => is_lower(c) || is_digit(c),
            CharClass::Host => is_lower(c) || is_digit(c) || c == '.',
            CharClass::Digit => is_digit(c),
            CharClass::NotAmpersand => c != '&',
            CharClass::NotEquals => c != '=',
        }
    }

    /// Whether every character of `s` belongs to the class.
    pub open spec fn all(self, s: Seq<char>) -> bool {
        forall|i: int| 0 <= i < s.len() ==> self.holds(#[trigger] s[i])
    }

    /// Executable membership test.
    pub fn test(self, c: char) -> (r: bool)
        ensures
            r == self.holds(c),
    {
        let lower = 'a' <= c && c <= 'z';
        let digit = '0' <= c && c <= '9';
        match self {
            CharClass::Protocol => lower || c == '+',
            CharClass::Credential => lower || digit || c == '-',
            CharClass::Label => lower || digit,
            CharClass::Host => lower || digit || c == '.',
            CharClass::Digit => digit,
            CharClass::NotAmpersand => c != '&',
            CharClass::NotEquals => c != '=',
        }
    }
}

/// The end of the longest run of `class` characters that starts at `start`:
/// the first position at or after `start` whose character is outside the
/// class, or the length of `s` where there is none.
pub open spec fn run_end(s: Seq<char>, start: int, class: CharClass) -> int
    decreases s.len() - start,
{
    if 0 <= start < s.len() && class.holds(s[start]) {
        run_end(s, start + 1, class)
    } else {
        start
    }
}

/// The part of a link in which reading it stopped.
#[derive(Clone, Copy, Debug, PartialEq, Eq, Structural)]
pub enum LinkSegment {
    /// The scheme and the `://` after it.
    Protocol,
    /// The credential and the `@` after it.
    Credential,
    /// The host name and the `:` after it.
    Host,
    /// The port number, and what follows it.
    Port,
}

/// Why a text is not a share link.
#[derive(Clone, Copy, Debug, PartialEq, Eq, Structural)]
pub enum ParseError {
    /// The text does not have the shape `protocol://credential@host:port`;
    /// the segment is the first one that does not fit.
    MalformedLink(LinkSegment),
    /// The query pair with this index (counted from 0) is not of the form
    /// `key=value` with both sides non-empty, or repeats an earlier key.
    InvalidParam(usize),
}

/// A link as a mathematical value.
pub struct LinkView {
    pub protocol: Seq<char>,
    pub credential: Seq<char>,
    pub host: Seq<char>,
    pub port: int,
    pub params: Seq<(Seq<char>, Seq<char>)>,
}

/// The largest port number that a link may carry.
pub open spec fn max_port() -> int {
    0x7fff_ffff
}

/// One or more lowercase letters or `+`.
pub open spec fn valid_protocol(p: Seq<char>) -> bool {
    p.len() > 0 && CharClass::Protocol.all(p)
}

/// One or more lowercase letters, digits or `-`.
pub open spec fn valid_credential(c: Seq<char>) -> bool {
    c.len() > 0 && CharClass::Credential.all(c)
}

/// One or more non-empty labels of lowercase letters and digits, separated by
/// single dots.
pub open spec fn valid_host(h: Seq<char>) -> bool {
    &&& h.len() > 0
    &&& CharClass::Host.all(h)
    &&& h[0] != '.'
    &&& h[h.len() - 1] != '.'
    &&& forall|i: int| 0 <= i < h.len() - 1 ==> !(#[trigger] h[i] == '.' && h[i + 1] == '.')
}

/// The number that a sequence of decimal digits denotes.
pub open spec fn decimal_value(digits: Seq<char>) -> nat
    decreases digits.len(),
{
    if digits.len() == 0 {
        0
    } else {
        (10 * decimal_value(digits.drop_last()) + (digits.last() as int - '0' as int)) as nat
    }
}

/// One or more digits that denote a number up to the largest port.
pub open spec fn valid_port(digits: Seq<char>) -> bool {
    digits.len() > 0 && CharClass::Digit.all(digits) && decimal_value(digits) <= max_port()
}

/// A key or a value of the query: non-empty, without `=` and `&`.
pub open spec fn valid_token(t: Seq<char>) -> bool {
    t.len() > 0 && CharClass::NotEquals.all(t) && CharClass::NotAmpersand.all(t)
}

/// Whether one of `pairs` has the key `key`.
pub open spec fn has_key(pairs: Seq<(Seq<char>, Seq<char>)>, key: Seq<char>) -> bool {
    exists|i: int| 0 <= i < pairs.len() && (#[trigger] pairs[i]).0 == key
}

/// Whether no two of `pairs` share a key.
pub open spec fn distinct_keys(pairs: Seq<(Seq<char>, Seq<char>)>) -> bool {
    forall|i: int, j: int|
        0 <= i < j < pairs.len() ==> (#[trigger] pairs[i]).0 != (#[trigger] pairs[j]).0
}

/// Whether every key and every value of `pairs` is a token of the grammar.
pub open spec fn valid_pairs(pairs: Seq<(Seq<char>, Seq<char>)>) -> bool {
    forall|i: int|
        0 <= i < pairs.len() ==> valid_token((#[trigger] pairs[i]).0) && valid_token(pairs[i].1)
}

impl LinkView {
    /// Whether the link is one of the grammar: its protocol, credential and
    /// host are made as the grammar says, its port is a port, every key and
    /// value of its parameters is a token, and no key occurs twice.
    pub open spec fn well_formed(self) -> bool {
        &&& valid_protocol(self.protocol)
        &&& valid_credential(self.credential)
        &&& valid_host(self.host)
        &&& 0 <= self.port <= max_port()
        &&& valid_pairs(self.params)
        &&& distinct_keys(self.params)
    }
}

/// The value stored under `key`, if there is one.
pub open spec fn lookup(pairs: Seq<(Seq<char>, Seq<char>)>, key: Seq<char>) -> Option<Seq<char>>
    decreases pairs.len(),
{
    if pairs.len() == 0 {
        None
    } else if pairs[0].0 == key {
        Some(pairs[0].1)
    } else {
        lookup(pairs.drop_first(), key)
    }
}

/// Splits `key=value` at its only `=`; `None` where the segment has no `=`,
/// more than one, or an empty side.
pub open spec fn split_pair(segment: Seq<char>) -> Option<(Seq<char>, Seq<char>)> {
    let eq = run_end(segment, 0, CharClass::NotEquals);
    if 0 < eq && eq + 1 < segment.len() && run_end(segment, eq + 1, CharClass::NotEquals)
        == segment.len() {
        Some((segment.subrange(0, eq), segment.subrange(eq + 1, segment.len() as int)))
    } else {
        None
    }
}

/// Reads the pairs of `query` from position `start` on, after the pairs in
/// `seen` have been read from what lies before it.
pub open spec fn params_from(
    query: Seq<char>,
    start: int,
    seen: Seq<(Seq<char>, Seq<char>)>,
) -> Result<Seq<(Seq<char>, Seq<char>)>, ParseError>
    decreases query.len() - start,
{
    let end = run_end(query, start, CharClass::NotAmpersand);
    if 0 <= start <= end <= query.len() {
        match split_pair(query.subrange(start, end)) {
            None => Err(ParseError::InvalidParam(seen.len() as usize)),
            Some(pair) => {
                if has_key(seen, pair.0) {
                    Err(ParseError::InvalidParam(seen.len() as usize))
                } else if end == query.len() {
                    Ok(seen.push(pair))
                } else {
                    params_from(query, end + 1, seen.push(pair))
                }
            },
        }
    } else {
        Err(ParseError::InvalidParam(seen.len() as usize))
    }
}

/// Reads a query: the text after the `?` of a link. An empty query holds no
/// pairs. Otherwise it is cut at each `&`, and every piece has to be a
/// `key=value` pair with a key that did not occur before.
pub open spec fn parse_params(query: Seq<char>) -> Result<Seq<(Seq<char>, Seq<char>)>, ParseError> {
    if query.len() == 0 {
        Ok(Seq::empty())
    } else {
        params_from(query, 0, Seq::empty())
    }
}

/// Whether `://` stands at position `at` of `s`.
pub open spec fn separator_at(s: Seq<char>, at: int) -> bool {
    0 <= at && at + 3 <= s.len() && s[at] == ':' && s[at + 1] == '/' && s[at + 2] == '/'
}

/// Whether the character `c` stands at position `at` of `s`.
pub open spec fn char_at(s: Seq<char>, at: int, c: char) -> bool {
    0 <= at < s.len() && s[at] == c
}

/// Reads a whole text as a share link, from left to right. Each segment is
/// the longest run of the characters it may hold, and has to be followed by
/// its delimiter; the first segment that does not fit is reported.
pub open spec fn parse_link(s: Seq<char>) -> Result<LinkView, ParseError> {
    let p_end = run_end(s, 0, CharClass::Protocol);
    let c_start = p_end + 3;
    let c_end = run_end(s, c_start, CharClass::Credential);
    let h_start = c_end + 1;
    let h_end = run_end(s, h_start, CharClass::Host);
    let d_start = h_end + 1;
    let d_end = run_end(s, d_start, CharClass::Digit);
    if !(0 < p_end && separator_at(s, p_end)) {
        Err(ParseError::MalformedLink(LinkSegment::Protocol))
    } else if !(c_start < c_end && char_at(s, c_end, '@')) {
        Err(ParseError::MalformedLink(LinkSegment::Credential))
    } else if !(valid_host(s.subrange(h_start, h_end)) && char_at(s, h_end, ':')) {
        Err(ParseError::MalformedLink(LinkSegment::Host))
    } else if !(valid_port(s.subrange(d_start, d_end)) && (d_end == s.len() || s[d_end] == '?')) {
        Err(ParseError::MalformedLink(LinkSegment::Port))
    } else {
        let query = if d_end == s.len() {
            Seq::empty()
        } else {
            s.subrange(d_end + 1, s.len() as int)
        };
        match parse_params(query) {
            Err(e) => Err(e),
            Ok(params) => Ok(
                LinkView {
                    protocol: s.subrange(0, p_end),
                    credential: s.subrange(c_start, c_end),
                    host: s.subrange(h_start, h_end),
                    port: decimal_value(s.subrange(d_start, d_end)) as int,
                    params,
                },
            ),
        }
    }
}

/// What `run_end` returns: every character of the run is in the class, and
/// the run cannot be made longer.
pub proof fn lemma_run_end_is_maximal(s: Seq<char>, start: int, class: CharClass)
    requires
        0 <= start <= s.len(),
    ensures
        start <= run_end(s, start, class) <= s.len(),
        forall|i: int| start <= i < run_end(s, start, class) ==> class.holds(#[trigger] s[i]),
        run_end(s, start, class) < s.len() ==> !class.holds(s[run_end(s, start, class)]),
    decreases s.len() - start,
{
    if start < s.len() && class.holds(s[start]) {
        lemma_run_end_is_maximal(s, start + 1, class);
    }
}

/// A run of class characters that ends at the end of the text, or before a
/// character outside the class, is the run that `run_end` finds.
pub proof fn lemma_run_end_unique(s: Seq<char>, start: int, end: int, class: CharClass)
    requires
        0 <= start <= end <= s.len(),
        forall|i: int| start <= i < end ==> class.holds(#[trigger] s[i]),
        end < s.len() ==> !class.holds(s[end]),
    ensures
        run_end(s, start, class) == end,
    decreases end - start,
{
    if start < end {
        lemma_run_end_unique(s, start + 1, end, class);
    }
}

/// A number does not get smaller when more digits are written after it.
pub proof fn lemma_decimal_value_prefix(digits: Seq<char>, k: int)
    requires
        CharClass::Digit.all(digits),
        0 <= k <= digits.len(),
    ensures
        decimal_value(digits.take(k)) <= decimal_value(digits),
    decreases digits.len(),
{
    if k == digits.len() {
        assert(digits.take(k) =~= digits);
    } else {
        let shorter = digits.drop_last();
        assert(shorter.take(k) =~= digits.take(k));
        lemma_decimal_value_prefix(shorter, k);
        assert(CharClass::Digit.holds(digits[digits.len() - 1]));
    }
}

} // verus!
