//! The pure part of the generic HTTP query helper: assembling the request
//! URL from base, path and urlencoded query.

use vstd::prelude::*;

verus! {

broadcast use vstd::string::group_string_axioms;

/// The URL a query request goes to: base, path, `?`, query.
pub fn build_query_url(base_url: &str, path: &str, query: &str) -> (r: String)
    ensures
        r@ == base_url@ + path@ + "?"@ + query@,
{
    let mut url = String::new();
    url.append(base_url);
    url.append(path);
    url.append("?");
    url.append(query);
    proof {
        assert(url@ =~= base_url@ + path@ + "?"@ + query@);
    }
    url
}

} // verus!
