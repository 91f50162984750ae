//! What the HTTP routes read from a request's query pairs.
//!
//! The routes collect the pairs into a map, so where a name occurs twice the
//! last value counts.

use vstd::prelude::*;
use crate::avatar::{pairs_view, str_chars};

verus! {

/// The value of the last pair named `key`.
pub open spec fn last_value(pairs: Seq<(Seq<char>, Seq<char>)>, key: Seq<char>) -> Option<
    Seq<char>,
>
    decreases pairs.len(),
{
    if pairs.len() == 0 {
        None
    } else if pairs.last().0 == key {
        Some(pairs.last().1)
    } else {
        last_value(pairs.drop_last(), key)
    }
}

/// The value of the last pair named `key`.
pub fn find_last_value(pairs: &Vec<(String, String)>, key: &str) -> (value: Option<String>)
    ensures
        match value {
            None => last_value(pairs_view(pairs@), key@) is None,
            Some(v) => last_value(pairs_view(pairs@), key@) == Some(v@),
        },
{
    let key_text = key.to_owned();
    let ghost all = pairs_view(pairs@);
    let mut i: usize = pairs.len();
    assert(all.take(i as int) =~= all);
    while i > 0
        invariant
            i <= pairs.len(),
            key_text@ == key@,
            all == pairs_view(pairs@),
            last_value(all, key@) == last_value(all.take(i as int), key@),
        decreases i,
    {
        proof {
            assert(all.take(i as int).drop_last() =~= all.take(i - 1));
        }
        i = i - 1;
        if pairs[i].0 == key_text {
            return Some(pairs[i].1.clone());
        }
    }
    None
}

/// The number written by a sequence of decimal digits.
pub open spec fn digits_value(s: Seq<char>) -> int
    decreases s.len(),
{
    if s.len() == 0 {
        0
    } else {
        digits_value(s.drop_last()) * 10 + (s.last() as int - '0' as int)
    }
}

pub open spec fn all_digits(s: Seq<char>) -> bool {
    forall|i: int| 0 <= i < s.len() ==> '0' <= #[trigger] s[i] <= '9'
}

/// `str::parse::<u32>`: an optional '+', then one or more ASCII digits whose
/// value fits in 32 bits.
pub open spec fn spec_parse_u32(s: Seq<char>) -> Option<u32> {
    let body = if s.len() > 0 && s[0] == '+' {
        s.drop_first()
    } else {
        s
    };
    if body.len() > 0 && all_digits(body) && digits_value(body) <= u32::MAX {
        Some(digits_value(body) as u32)
    } else {
        None
    }
}

/// Parses a decimal `u32` as `str::parse` does.
pub fn parse_u32(text: &str) -> (n: Option<u32>)
    ensures
        n == spec_parse_u32(text@),
{
    let chars = str_chars(text);
    let start: usize = if chars.len() > 0 && chars[0] == '+' {
        1
    } else {
        0
    };
    let ghost body = if text@.len() > 0 && text@[0] == '+' {
        text@.drop_first()
    } else {
        text@
    };
    assert(body =~= chars@.skip(start as int));
    if start >= chars.len() {
        return None;
    }
    // The value read so far, held at 2^32 once it no longer fits.
    let mut acc: u64 = 0;
    let mut i: usize = start;
    while i < chars.len()
        invariant
            start <= i <= chars.len(),
            chars@ == text@,
            body == chars@.skip(start as int),
            body == (if text@.len() > 0 && text@[0] == '+' {
                text@.drop_first()
            } else {
                text@
            }),
            all_digits(body.take(i - start)),
            digits_value(body.take(i - start)) >= 0,
            acc as int == if digits_value(body.take(i - start)) > u32::MAX {
                u32::MAX + 1
            } else {
                digits_value(body.take(i - start))
            },
        decreases chars.len() - i,
    {
        let c = chars[i];
        let ghost prev = body.take(i - start);
        let ghost next = body.take(i + 1 - start);
        assert(next.drop_last() =~= prev);
        assert(next.last() == c);
        if !('0' <= c && c <= '9') {
            assert(!all_digits(body)) by {
                assert(body[i - start] == c);
            }
            return None;
        }
        let digit: u64 = (c as u32 - '0' as u32) as u64;
        let grown: u64 = acc * 10 + digit;
        acc = if grown > 0x1_0000_0000 {
            0x1_0000_0000
        } else {
            grown
        };
        i = i + 1;
        assert(all_digits(next)) by {
            assert forall|j: int| 0 <= j < next.len() implies '0' <= #[trigger] next[j] <= '9' by {
                if j < prev.len() {
                    assert(next[j] == prev[j]);
                }
            }
        }
    }
    assert(body.take(body.len() as int) =~= body);
    if acc > 0xffff_ffff {
        None
    } else {
        Some(acc as u32)
    }
}

/// What the dither route reads: the image URL, and the size to resize to.
pub struct DitherQuery {
    pub url: Option<String>,
    pub width: Option<u32>,
    pub height: Option<u32>,
}

pub open spec fn text_view(text: Option<String>) -> Option<Seq<char>> {
    match text {
        Some(t) => Some(t@),
        None => None,
    }
}

/// The last `url`, and the last `width` and `height`, each dropped where it
/// is not a `u32`.
pub open spec fn spec_dither_query(pairs: Seq<(Seq<char>, Seq<char>)>) -> (
    Option<Seq<char>>,
    Option<u32>,
    Option<u32>,
) {
    let number = |key: Seq<char>|
        match last_value(pairs, key) {
            Some(v) => spec_parse_u32(v),
            None => None,
        };
    (last_value(pairs, "url"@), number("width"@), number("height"@))
}

fn last_number(pairs: &Vec<(String, String)>, key: &str) -> (n: Option<u32>)
    ensures
        n == match last_value(pairs_view(pairs@), key@) {
            Some(v) => spec_parse_u32(v),
            None => None,
        },
{
    match find_last_value(pairs, key) {
        Some(v) => parse_u32(v.as_str()),
        None => None,
    }
}

/// Reads the dither route's query.
pub fn dither_query(pairs: &Vec<(String, String)>) -> (q: DitherQuery)
    ensures
        (text_view(q.url), q.width, q.height) == spec_dither_query(pairs_view(pairs@)),
{
    let url = find_last_value(pairs, "url");
    let width = last_number(pairs, "width");
    let height = last_number(pairs, "height");
    DitherQuery { url, width, height }
}

/// What the avatar route reads: whether the last `format` says "png", and
/// whether the last `color` says "on".
pub open spec fn spec_avatar_query(pairs: Seq<(Seq<char>, Seq<char>)>) -> (bool, bool) {
    (last_value(pairs, "format"@) == Some("png"@), last_value(pairs, "color"@) == Some("on"@))
}

/// Reads the avatar route's query: PNG wanted, colour wanted.
pub fn avatar_query(pairs: &Vec<(String, String)>) -> (q: (bool, bool))
    ensures
        q == spec_avatar_query(pairs_view(pairs@)),
{
    let png = match find_last_value(pairs, "format") {
        Some(f) => f == "png".to_owned(),
        None => false,
    };
    let color = match find_last_value(pairs, "color") {
        Some(c) => c == "on".to_owned(),
        None => false,
    };
    (png, color)
}

} // verus!
