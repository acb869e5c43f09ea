# six_degrees

A service that maps the links between wikipedia pages. It sizes its workers and slabs from
the memory and cores of the machine, routes every page to a worker and a slab by the md5
digest of its title, fetches pages from the wikipedia API (keeping a local cache), and
answers HTTP requests for the connections of a page.

## Layout

- `src/` — the library, verified with Verus:
  - `foundation.rs`: sizing (power-of-two worker and slab counts, reserved memory, spare
    slabs) and routing of a digest to a worker and a slab, with the laws that every digest
    selects a worker and a slab in range and that every slab is accounted for.
  - `fetch.rs`: the links of a fetched page, classification of API payloads, the retry
    decisions for lagging replicas, API URLs and cache directory names.
  - `api.rs`: the answer to an API request and the reading of a socket address.
  - `decimal.rs`: decimal integers read as `str::parse` reads them.
  - `entry.rs`, `opt.rs`, `worker.rs`: page entries and digests, options, worker messages.
- `app/` — the program around the library: command line (clap), machine information
  (sysinfo), HTTP (hyper, reqwest), JSON (serde), tasks and channels (tokio), logging.
- `tests/` — tests of the library.
