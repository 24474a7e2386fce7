//! The sprite-archive updater's data model and decisions: the shape of one
//! wiki query page and whether a local file is already up to date with the
//! digest the wiki reports. Fetching and writing the files stays with the
//! caller.

use std::collections::HashMap;

use vstd::prelude::*;

use crate::sprite::chars_equal;

verus! {

/// Where one remote sprite file lives and the digest of its content.
pub struct ImageInfo {
    pub url: String,
    pub sha1: String,
}

/// One remote sprite file: its page title and its file information.
pub struct Image {
    pub title: String,
    pub imageinfo: (ImageInfo,),
}

/// The files of one query page, keyed by page id.
pub struct QueryPages {
    pub pages: HashMap<String, Image>,
}

/// One page of the paginated wiki query: the files it lists and, when more
/// pages follow, the parameters of the next request.
pub struct ParseQuery {
    pub continuation: Option<HashMap<String, String>>,
    pub query: QueryPages,
}

/// The hex digest that the wiki's digest algorithm assigns to these bytes.
pub uninterp spec fn sha1_hex(bytes: Seq<u8>) -> Seq<char>;

/// Relies on sha1_smol::Sha1: the hex digest is a function of the input
/// bytes alone.
#[verifier::external_body]
fn sha1_hex_digest(bytes: &[u8]) -> (r: String)
    ensures
        r@ == sha1_hex(bytes@),
{
    let mut hasher = sha1_smol::Sha1::new();
    hasher.update(bytes);
    hasher.digest().to_string()
}

/// A local file needs a fresh download unless it exists and its digest
/// matches the one the wiki reports for the image.
pub fn needs_refresh(image: &Image, local: Option<&Vec<u8>>) -> (r: bool)
    ensures
        local is None ==> r,
        local matches Some(b) ==> r == (sha1_hex(b@) != image.imageinfo.0.sha1@),
{
    match local {
        None => true,
        Some(bytes) => {
            let digest = sha1_hex_digest(bytes.as_slice());
            !chars_equal(digest.as_str(), image.imageinfo.0.sha1.as_str())
        },
    }
}

/// The paginated query goes on exactly while a page carries continuation
/// parameters.
pub fn has_more_pages(page: &ParseQuery) -> (r: bool)
    ensures
        r == (page.continuation is Some),
{
    match &page.continuation {
        Some(_) => true,
        None => false,
    }
}

} // verus!
