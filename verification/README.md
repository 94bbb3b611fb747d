# package_registry

A package registry service whose core is verified with Verus.

- `src/` is the verified library:
  - `registry.rs`: the registry of rated packages, keyed by identifier, with
    the invariant that no two stored packages share an identifier, and the
    laws of storing, looking up and removing packages.
  - `listing.rs`, `sort.rs`: selecting packages by query, sorting them by
    identifier (a stable sort proved against its specification) and paging.
  - `api.rs`: retrieving, rating, deleting and searching packages.
  - `flows.rs`: the create and update requests as step functions from a
    stage and the outcome of the last piece of outside work (file, network,
    rating) to the next stage and the next piece of work.
  - `archive.rs`, `codec.rs`, `pattern.rs`, `repository.rs`: reading package
    archives and manifests, Base64 content, regular expressions and package
    URLs, each calling its outside crate through a small trusted wrapper.
  - `text.rs`, `response.rs`, `schema.rs`: strings, replies and records.
  - `laws.rs`: properties that span several operations.
- `tests/` runs the library with the real outside crates.
- `app/` is the web server: routes, file and network I/O, and the
  floating-point rating of repositories. It drives the step functions of
  `flows.rs` and performs the work they ask for.
