# rust_repos

Writes the names of a thousand popular Rust repositories to `repo-list.txt`: the first ones of a
GitHub search, by stars, that are not archived, not on a list of unwanted ones, and at least 51
percent Rust.

- `src/` decides. It is verified with Verus: which repository is skipped, what is asked of the
  server and in which order, how the answers are read, for how many requests the rate limiter is
  waited for and when, what ends up on the list and what stops it.
- `app/` does. It talks to GitHub, waits, shows the progress and writes the file.
- `tests/` runs the library with the real crates that it calls.

The program takes a token from the environment variable `GITHUB_TOKEN`.
