# bops

The logic of a family of list-ranking services (zeroflops, topbops, smashsort),
written in Verus and proved against its contracts.

- `src/` is the verified library:
  - `rating` — the Elo update of a match, as an exact integer table.
  - `text`, `sql` — text helpers; a model of the parts of an SQL query that the
    services rewrite, and the reading of query text into that model through
    sqlparser.
  - `zeroflops`, `topbops`, `spotify` — the shared data types, the push rules of a
    list, and the statements of the SQLite store.
  - `zeroflops_web`, `topbops_web`, `smashsort` — the servers' logic: query rewriting,
    request routing, sign-in and push steps, custom, Spotify and setlist.fm sources.
    What is proved of the rewriting is a property of the query model: its WHERE is
    the user's condition joined by AND to the query's own condition. The text that
    runs is printed from that model by sqlparser, which does not add parentheses
    around the query's own condition, so an OR in it binds looser than the user's
    condition, as it does in the services themselves.
  - `zeroflops_wasm`, `topbops_wasm` — the pages' state machines, the tournament
    bracket, random matches, and request addresses.
- `tests/` runs the library on concrete values.
- `app/` is the glue that cannot be verified: a command line that rewrites and
  transforms queries for each service and plays a tournament, testing first what the
  library asks of its input, and the JSON forms of the library's types.
