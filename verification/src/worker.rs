//! Workers: each owns the slabs of the pages whose digests select it.
use vstd::prelude::*;

use crate::entry::Digest;

verus! {

/// What a worker answers to a request for a page.
#[derive(Debug)]
pub enum WorkerResponse {
    /// The inbound and outbound links of the page, from its slab.
    Links,
    /// The page is not in a slab; it is being fetched from the local cache or wikipedia.
    Fetch,
}

/// The links of a page, both ways.
#[derive(Debug)]
pub struct Links {
    pub digest: Digest,
    pub title: String,
    pub outbound: Vec<String>,
    pub inbound: Vec<String>,
}

} // verus!
