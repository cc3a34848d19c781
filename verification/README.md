# scrobblist

The verified core of Scrobblist, a desktop client for Last.fm.

`src/` is a Verus library: every function in it carries a contract that
Verus proves.

- `text` — trimming by Unicode whitespace, first-occurrence replacement,
  decimal rendering and decimal parsing with the standard parser's error
  kinds, and the law that rendered numbers parse back.
- `lastfm::params` — request parameters kept in ascending key order, with
  the proof that the order is canonical (equal maps, equal entries).
- `lastfm::signing` — the API signature (MD5 over names and values in key
  order, `format` left out, then the secret), and the law that it depends
  only on the parameters other than `format`.
- `lastfm::client` — the parameters of every request, signing of write
  requests, judging replies, reading counts.
- `lastfm::auth` — the authorisation URL, reading the token out of the
  browser's callback request, the callback replies, and the decision step of
  the wait for approval.
- `lastfm::models`, `lastfm::error` — the API's records and numbers sent as
  numbers or strings.
- `commands` — what the views show: image choice, chart entries, profile,
  recent tracks, cache use, credentials and session state.
- `database::models` — cached records and the values stored for them.
- `storage` — where the cache database lives on each platform.
- `timestamps` — RFC 3339 dates of UNIX times.

The outside crates `md5`, `url` and `chrono` are called from `src/` through
a few trusted functions whose contracts are stated beside them.

`app/` holds the I/O around the library: HTTP (reqwest), the SQLite cache
(sqlx), the OS keychain (keyring), the callback listener and the polling loop
(tokio), and the serde copies of the records.
