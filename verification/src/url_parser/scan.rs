//! Executable scanning over the characters of a text.
use vstd::prelude::*;
use crate::url_parser::grammar::{
    decimal_value, lemma_decimal_value_prefix, max_port, run_end, valid_host, valid_port, CharClass,
};

verus! {

/// The characters of `text`, in order.
pub fn chars_of(text: &str) -> (chars: Vec<char>)
    ensures
        chars@ == text@,
{
    let mut chars: Vec<char> = Vec::new();
    for c in it: text.chars()
        invariant
            it.seq() == text@,
            chars@ == it.seq().take(it.index() as int),
    {
        chars.push(c);
    }
    chars
}

/// Walks over the longest run of `class` characters that starts at `start`.
pub(crate) fn scan_run(chars: &Vec<char>, start: usize, class: CharClass) -> (end: usize)
    requires
        start <= chars.len(),
    ensures
        end == run_end(chars@, start as int, class),
        start <= end <= chars.len(),
{
    let mut end: usize = start;
    while end < chars.len() && class.test(chars[end])
        invariant
            start <= end <= chars.len(),
            run_end(chars@, start as int, class) == run_end(chars@, end as int, class),
        decreases chars.len() - end,
    {
        end = end + 1;
    }
    end
}

/// Walks over the longest run of `class` characters that starts at `start`
/// and stays inside the window from `lo` to `hi`.
pub(crate) fn scan_within(
    chars: &Vec<char>,
    lo: usize,
    hi: usize,
    start: usize,
    class: CharClass,
) -> (end: usize)
    requires
        lo <= start <= hi <= chars.len(),
    ensures
        end - lo == run_end(chars@.subrange(lo as int, hi as int), start - lo, class),
        start <= end <= hi,
{
    let ghost window = chars@.subrange(lo as int, hi as int);
    let mut end: usize = start;
    while end < hi && class.test(chars[end])
        invariant
            lo <= start <= end <= hi <= chars.len(),
            window == chars@.subrange(lo as int, hi as int),
            run_end(window, start - lo, class) == run_end(window, end - lo, class),
        decreases hi - end,
    {
        assert(window[end - lo] == chars@[end as int]);
        end = end + 1;
    }
    proof {
        if end < hi {
            assert(window[end - lo] == chars@[end as int]);
        }
    }
    end
}

/// Whether the characters from `lo` to `hi` form a host name.
pub(crate) fn check_host(chars: &Vec<char>, lo: usize, hi: usize) -> (ok: bool)
    requires
        lo <= hi <= chars.len(),
        CharClass::Host.all(chars@.subrange(lo as int, hi as int)),
    ensures
        ok == valid_host(chars@.subrange(lo as int, hi as int)),
{
    let ghost host = chars@.subrange(lo as int, hi as int);
    if lo == hi {
        return false;
    }
    assert(host[0] == chars@[lo as int]);
    assert(host[host.len() - 1] == chars@[hi - 1]);
    if chars[lo] == '.' || chars[hi - 1] == '.' {
        return false;
    }
    let mut i: usize = lo;
    while i + 1 < hi
        invariant
            lo <= i < hi <= chars.len(),
            host == chars@.subrange(lo as int, hi as int),
            forall|j: int| 0 <= j < i - lo ==> !(#[trigger] host[j] == '.' && host[j + 1] == '.'),
        decreases hi - i,
    {
        assert(host[i - lo] == chars@[i as int]);
        assert(host[i - lo + 1] == chars@[i + 1]);
        if chars[i] == '.' && chars[i + 1] == '.' {
            return false;
        }
        i = i + 1;
    }
    true
}

/// The number written by the digits from `lo` to `hi`, where it is a port.
pub(crate) fn read_port(chars: &Vec<char>, lo: usize, hi: usize) -> (port: Option<i32>)
    requires
        lo <= hi <= chars.len(),
        CharClass::Digit.all(chars@.subrange(lo as int, hi as int)),
    ensures
        match port {
            Some(p) => valid_port(chars@.subrange(lo as int, hi as int)) && p == decimal_value(
                chars@.subrange(lo as int, hi as int),
            ),
            None => !valid_port(chars@.subrange(lo as int, hi as int)),
        },
{
    let ghost digits = chars@.subrange(lo as int, hi as int);
    if lo == hi {
        return None;
    }
    let mut value: i32 = 0;
    let mut i: usize = lo;
    assert(digits.take(0) =~= Seq::<char>::empty());
    while i < hi
        invariant
            lo <= i <= hi <= chars.len(),
            digits == chars@.subrange(lo as int, hi as int),
            CharClass::Digit.all(digits),
            0 <= value <= max_port(),
            value == decimal_value(digits.take(i - lo)),
        decreases hi - i,
    {
        let c: char = chars[i];
        assert(digits[i - lo] == c);
        assert(CharClass::Digit.holds(digits[i - lo]));
        let digit: i32 = (c as u32 - '0' as u32) as i32;
        proof {
            let longer = digits.take(i - lo + 1);
            assert(longer.drop_last() =~= digits.take(i - lo));
            assert(longer.last() == c);
            assert(decimal_value(longer) == 10 * value + digit);
            lemma_decimal_value_prefix(digits, i - lo + 1);
        }
        if value > (i32::MAX - digit) / 10 {
            return None;
        }
        value = 10 * value + digit;
        i = i + 1;
    }
    assert(digits.take(hi - lo) =~= digits);
    Some(value)
}

} // verus!
