//! A service that maps the links between wikipedia pages: it sizes its workers and slabs
//! from the machine, routes each page to a worker and a slab by the digest of its title,
//! fetches pages from the wikipedia API, and answers requests for the connections of a page.

pub mod api;
pub mod decimal;
pub mod entry;
pub mod fetch;
pub mod foundation;
pub mod opt;
pub mod worker;
