# provider_routing

Decides where the requests of local applications to model providers go: which providers are offered a request, in
which order, through which circuit breakers, and how a request to a provider is addressed,
authenticated and rewritten.

* `src/` is the library, verified with Verus. It holds the decisions: the cache of current
  providers and its versions, the selection from the failover queue, the keys and limits of
  circuit breakers, and the adapter that reads a provider's settings. Each decision is a function
  of what has been read so far; reading, waiting and sending are left to the caller.
* `app/` is ordinary Rust around it: locks, the file watcher, and the calls to the database, the
  circuit breakers and the HTTP client, which the application supplies through the traits in
  `app/host.rs`.
* `tests/` runs the library on given values.

What the library takes on trust is marked where it stands: `src/json.rs` for `serde_json`,
`src/watch.rs` for `notify`, and `src/text.rs` for text functions of the standard library.
