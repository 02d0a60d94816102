//! Absolute-URL validation through the `url` crate, and the string-level
//! operations that build a redirect target from a base URL, a trailing
//! path and a query.

use vstd::prelude::*;

use crate::text::{find_char, find_char_index};

verus! {

/// What `url::Url::parse` returns for a given input: the serialization of
/// the parsed URL when the input is an absolute URL with a scheme, absent
/// otherwise. The result depends on the input string alone.
pub uninterp spec fn url_parse_result(s: Seq<char>) -> Option<Seq<char>>;

/// Relies on `url::Url::parse`, which succeeds exactly on absolute URLs
/// (a relative reference is an error), and on `String::from(Url)`, which
/// hands out the parsed URL's serialization.
#[verifier::external_body]
pub(crate) fn parse_absolute_url(s: &str) -> (r: Option<String>)
    ensures
        (r is Some) == (url_parse_result(s@) is Some),
        r matches Some(t) ==> url_parse_result(s@) == Some(t@),
{
    match url::Url::parse(s) {
        Ok(u) => Some(String::from(u)),
        Err(_) => None,
    }
}

/// The part of `s` before its first `'?'`; all of `s` when it has none.
pub open spec fn before_query(s: Seq<char>) -> Seq<char> {
    match find_char(s, '?') {
        Option::Some(i) => s.subrange(0, i),
        Option::None => s,
    }
}

/// What follows the first `'?'` of `s`, if anything does.
pub open spec fn query_of(s: Seq<char>) -> Option<Seq<char>> {
    match find_char(s, '?') {
        Option::Some(i) => Option::Some(s.subrange(i + 1, s.len() as int)),
        Option::None => Option::None,
    }
}

/// `tail` appended to `base`, with a path separator inserted between the
/// two unless `base` already ends in one; `base` alone when `tail` is
/// empty.
pub open spec fn joined_path(base: Seq<char>, tail: Seq<char>) -> Seq<char> {
    if tail.len() == 0 {
        base
    } else if base.len() > 0 && base[base.len() - 1] == '/' {
        base + tail
    } else {
        base + seq!['/'] + tail
    }
}

/// `base` carrying query `q`: unchanged when `q` is absent.
pub open spec fn with_query(base: Seq<char>, q: Option<Seq<char>>) -> Seq<char> {
    match q {
        Option::Some(qs) => base + seq!['?'] + qs,
        Option::None => base,
    }
}

/// Splits `s` at its first `'?'` into the part before it and, when the
/// `'?'` occurs, the part after it.
pub fn split_query(s: &str) -> (r: (String, Option<String>))
    ensures
        r.0@ == before_query(s@),
        (r.1 is Some) == (query_of(s@) is Some),
        r.1 matches Some(q) ==> query_of(s@) == Some(q@),
{
    let n = s.unicode_len();
    let i = find_char_index(s, '?');
    if i == n {
        (String::from_str(s), Option::None)
    } else {
        (
            String::from_str(s.substring_char(0, i)),
            Option::Some(String::from_str(s.substring_char(i + 1, n))),
        )
    }
}

/// Appends `tail` to `base` as [`joined_path`] says.
pub fn join_path(base: &str, tail: &str) -> (r: String)
    ensures
        r@ == joined_path(base@, tail@),
{
    let mut out = String::from_str(base);
    if tail.unicode_len() == 0 {
        return out;
    }
    let n = base.unicode_len();
    if !(n > 0 && base.get_char(n - 1) == '/') {
        out.append("/");
        proof {
            reveal_strlit("/");
            assert(out@ =~= base@ + seq!['/']);
        }
    }
    out.append(tail);
    proof {
        if base@.len() > 0 && base@[base@.len() - 1] == '/' {
        } else {
            assert(out@ =~= base@ + seq!['/'] + tail@);
        }
    }
    out
}

/// Attaches query `q` to `base` as [`with_query`] says.
pub fn attach_query(base: String, q: Option<&String>) -> (r: String)
    ensures
        r@ == with_query(base@, match q {
            Option::Some(qs) => Option::Some(qs@),
            Option::None => Option::None::<Seq<char>>,
        }),
{
    let ghost b = base@;
    match q {
        Option::Some(qs) => {
            let mut out = base;
            out.append("?");
            proof {
                reveal_strlit("?");
                assert(out@ =~= b + seq!['?']);
            }
            out.append(qs.as_str());
            proof {
                assert(out@ =~= b + seq!['?'] + qs@);
            }
            out
        },
        Option::None => base,
    }
}

} // verus!
