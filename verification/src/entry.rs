//! Page entries held in the slabs, and the digest that identifies a page.
use vstd::prelude::*;

verus! {

/// The md5 digest of a page title; it selects the worker and the slab that own the page.
pub type Digest = [u8; 16];

/// The md5 digest of the UTF-8 encoding of `text`.
pub uninterp spec fn md5_of(text: Seq<char>) -> Seq<u8>;

/// A page as stored in a slab: its digest, its title and the digests of the pages it links to
/// and that link to it.
#[derive(Debug)]
pub struct Entry {
    digest: Digest,
    outbound_count: u32,
    inbound_count: u32,
    outbound: Vec<Digest>,
    inbound: Vec<Digest>,
    title: String,
}

impl Entry {
    /// Decodes an entry from its slab representation. The slab layout is not settled yet, so
    /// nothing is decoded.
    #[allow(unused_variables)]
    pub fn from(source: &[u8]) {
    }

    /// Encodes the entry into its slab representation. The slab layout is not settled yet, so
    /// the encoding is empty.
    pub fn to(&self) -> (bytes: Vec<u8>)
        ensures
            bytes@ == Seq::<u8>::empty(),
    {
        Vec::new()
    }

    /// The digest of a page title.
    ///
    /// Trusted: calls `md5::compute` on the UTF-8 bytes of `title`; the contract claims only
    /// that the result is the md5 digest of the title, a function of the title alone.
    #[verifier::external_body]
    pub fn get_digest(title: &str) -> (digest: Digest)
        ensures
            digest@ == md5_of(title@),
    {
        md5::compute(title).into()
    }
}

} // verus!
