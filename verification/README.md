# warp_context

The verified core of a terminal's context panel and of the typed surfaces
around it, written in Verus.

`src/` holds the library. Verus proves each of its functions against its
contract, with two exceptions: the trusted wrappers around `std` calls
(those in `paths`, `text::push_char` and `search::truncate_string`), whose
contracts restate what the standard library documents and are taken on
trust; and a few inert methods on unit types that do nothing and so state
nothing.

- `text` — character-level helpers (trimming, lines, words, decimal
  parsing and printing) with their models over `Seq<char>`.
- `foreground_process` — reading `lsof` and `ps` output and picking the
  process most likely running in a directory.
- `git_state` — the state of a repository from the output of `git` probes,
  and the short form of a remote URL.
- `repository` — coalescing batches of file changes, subscriber
  bookkeeping and watch planning, the debounce buffer, and a repository's
  git directories.
- `widgets` — the state machines and text lines of the context panel's
  cards (working directory, git, agent sessions, running process).
- `paths` — the `std::path` operations the library relies on, as trusted
  wrappers.
- `search`, `toolbar`, `onboarding`, `secrets`, `server`, `computer_use`,
  `codebase_index`, `persistence` — the remaining typed surfaces and their
  small rules.

`app/` runs the commands, reads the files and the clock, formats floats,
and carries the serde and thiserror forms of the library's types.
`tests/` exercises the library on concrete values.
