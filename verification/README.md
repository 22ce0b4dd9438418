# Tasklane

A personal task aggregator for Linear and GitHub. The `tasklane` crate is
the verified core, written in Verus:

- `text` — character-level helpers (trimming, searching, decimal digits)
  with their specifications.
- `github` — the `Link` header scan that finds the next page, the
  conversion of search results into issues, and `GitHubFetch`, the state
  machine that decides which page to request next and when to stop
  (at most 500 issues).
- `linear` — the GraphQL request body and what a response turns into.
- `http` — success status codes and URL encoding.
- `json` — the JSON text of the small objects the library writes.
- `storage` — the secret store of API tokens, with the laws that a token
  reads back as it was stored and disappears once deleted.
- `sqlite` — the connection to SQLite and the ghost record of every
  exchange made through it, appended by the calls into `rusqlite` alone.
- `db` — the SQLite task cache (tasks, sync runs, settings): which
  statements each operation issues, with which parameters, and how it
  reads the answers, text that is not UTF-8 included.
- `sync` — starting and finishing the sync of a source, stated as the
  exchanges each issues.

`app/` holds the desktop side: the HTTP requests, the files of the cache
and of the secrets, and the commands that the user interface calls.
