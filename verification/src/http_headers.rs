//! Request headers for the HTTP transport.
use vstd::prelude::*;
use crate::text::{chars_eq_ignore_ascii_case, chars_of, eq_ignore_ascii_case, trim, trimmed};

verus! {

/// Whether a header is sent: an `Authorization` header (in any ASCII case)
/// only with a credential, that is a value that is neither blank nor the
/// bare word `Bearer` (in any case); any other header always.
pub open spec fn header_kept(key: Seq<char>, value: Seq<char>) -> bool {
    eq_ignore_ascii_case(key, "Authorization"@) ==> (trim(value).len() > 0 && !eq_ignore_ascii_case(
        trim(value),
        "Bearer"@,
    ))
}

/// The headers of `h` that are sent, in order.
pub open spec fn kept_headers(h: Seq<(String, String)>) -> Seq<(String, String)>
    decreases h.len(),
{
    if h.len() == 0 {
        h
    } else if header_kept(h.last().0@, h.last().1@) {
        kept_headers(h.drop_last()).push(h.last())
    } else {
        kept_headers(h.drop_last())
    }
}

fn keep_header(key: &str, value: &str) -> (r: bool)
    ensures
        r == header_kept(key@, value@),
{
    if !chars_eq_ignore_ascii_case(&chars_of(key), &chars_of("Authorization")) {
        return true;
    }
    let v = trimmed(&chars_of(value));
    v.len() > 0 && !chars_eq_ignore_ascii_case(&v, &chars_of("Bearer"))
}

/// The headers to send with a request: `headers` without the empty
/// `Authorization` headers (blank, or `Bearer` with no token).
pub fn build_headers(headers: &Vec<(String, String)>) -> (r: Vec<(String, String)>)
    ensures
        r@ == kept_headers(headers@),
{
    let mut r: Vec<(String, String)> = Vec::new();
    let mut i: usize = 0;
    while i < headers.len()
        invariant
            i <= headers.len(),
            r@ == kept_headers(headers@.take(i as int)),
        decreases headers.len() - i,
    {
        assert(headers@.take(i + 1).drop_last() =~= headers@.take(i as int));
        let (k, v) = &headers[i];
        if keep_header(k.as_str(), v.as_str()) {
            r.push((k.clone(), v.clone()));
        }
        i = i + 1;
    }
    assert(headers@.take(headers.len() as int) =~= headers@);
    r
}

} // verus!
