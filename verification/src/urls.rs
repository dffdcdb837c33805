//! Resolution of download URLs for a product.
//!
//! The mapping is positional and load-bearing: URL `i` (0-based) downloads
//! manifest entry `i`. A single-file product uses a URL without an explicit
//! index; a multi-file product embeds the 1-based index in the path.

use crate::decimal::dec_seq;
use crate::decimal::u64_to_dec_string;
use vstd::prelude::*;

verus! {

/// The download URL of a product that consists of exactly one file.
pub open spec fn single_url_spec(id: Seq<char>) -> Seq<char> {
    "https://www.dlsite.com/maniax/download/=/product_id/"@ + id + ".html"@
}

/// The download URL of file number `index` (1-based) of a multi-file product.
pub open spec fn multi_url_spec(id: Seq<char>, index: nat) -> Seq<char> {
    "https://www.dlsite.com/maniax/download/=/number/"@ + dec_seq(index) + "/product_id/"@ + id
        + ".html"@
}

/// The URL at 0-based position `i` of a product with `file_count` files.
pub open spec fn url_for(id: Seq<char>, file_count: nat, i: nat) -> Seq<char> {
    if file_count == 1 {
        single_url_spec(id)
    } else {
        multi_url_spec(id, i + 1)
    }
}

/// Resolves the ordered list of download URLs for a product: empty for zero
/// files, the unindexed form for exactly one file, and one URL per 1-based
/// index, ascending, otherwise.
pub fn resolve_file_urls(product_id: &str, file_count: usize) -> (urls: Vec<String>)
    ensures
        urls@.len() == file_count,
        forall|i: int|
            0 <= i < file_count ==> #[trigger] urls@[i]@ == url_for(
                product_id@,
                file_count as nat,
                i as nat,
            ),
{
    let mut urls: Vec<String> = Vec::new();
    if file_count == 0 {
        return urls;
    }
    if file_count == 1 {
        let mut u = String::from_str("https://www.dlsite.com/maniax/download/=/product_id/");
        u.append(product_id);
        u.append(".html");
        urls.push(u);
        return urls;
    }
    let mut i: usize = 0;
    while i < file_count
        invariant
            1 < file_count,
            0 <= i <= file_count,
            urls@.len() == i,
            forall|k: int|
                0 <= k < i ==> #[trigger] urls@[k]@ == multi_url_spec(product_id@, (k + 1) as nat),
        decreases file_count - i,
    {
        let index = (i as u64) + 1;
        let mut u = String::from_str("https://www.dlsite.com/maniax/download/=/number/");
        let num = u64_to_dec_string(index);
        u.append(num.as_str());
        u.append("/product_id/");
        u.append(product_id);
        u.append(".html");
        urls.push(u);
        i = i + 1;
    }
    urls
}

} // verus!
