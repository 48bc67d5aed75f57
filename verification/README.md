# reddit-cli

A command-line client for browsing Reddit: browse a subreddit, search, read a
post with its comment tree, look at a user's profile and history, read
comments, and submit a text post.

The core of the program is a library verified with Verus:

- `src/validation.rs` — subreddit, username and post-ID checks, and reading a
  post argument that may be a full URL, a short URL or a bare ID.
- `src/sanitize.rs` — removal of terminal escape sequences and control
  characters from text received from the network.
- `src/format.rs` — thousands separators and "time ago" labels.
- `src/models.rs` — the response shapes and the building of the comment tree
  (depth and count limits).
- `src/render.rs` — the exact lines and styles of every kind of output.
- `src/client.rs` — the API client's decisions: status handling, error texts,
  size limits, the token cache and the authentication header.
- `src/commands.rs` — the requests each command makes and how answers are
  turned into output.
- `src/clock.rs`, `src/text.rs` — the clock and string helpers.

`app/` is the program around it: command-line parsing, HTTP, JSON decoding and
colored printing. `tests/` holds the tests of the library.

Credentials are read from `REDDIT_CLIENT_ID`, `REDDIT_CLIENT_SECRET`,
`REDDIT_USERNAME` and `REDDIT_PASSWORD` (a `.env` file is read too).
