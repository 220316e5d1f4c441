# stellr

Stellr shows the issues of GitHub repositories as a star map: which issues
are blocked, which are on the frontier, which are claimed or resolved, and
how their history unfolded.

This crate is the verified core of the cockpit, written in Verus. The
functions in `src/` carry contracts that Verus proves, except the small
trusted wrappers (marked `external_body`) around calls into `url`,
`chrono`, `subtle`, `getrandom`, `directories` and `std`, whose contracts
restate what those crates document:

- `derive`, `states`, `textref`, `order`, `history`, `ledger` — the issue
  graph (with its `BTreeMap` of issue states), the
  relationships written in issue bodies ("Blocked by" and "Blocks" lines and
  sections, "Parent" sections), merged into the issues that GitHub returns
  and that the cache reloads, the order of history events, and the ledger's
  rules for seeds, stored states and rows read back (the SQL itself is in
  `app/`);
- `github_sync`, `github_history` — how GitHub's answers are classified,
  collected and normalized;
- `poll`, `runtime`, `session` — what the poller publishes, the session
  token and cockpit URL, and who is admitted to the protected routes;
- `cli`, `entrypoints`, `target`, `desktop`, `spaces`, `route_state`,
  `theme`, `device_flow`, `auth`, `credentials`, `cache` — the command line,
  launch targets, desktop routing, device authorization and the stores;
- `text`, `urls` — character-level helpers and the calls into `url`,
  `std::path` and `directories`.

The history import is a verified step function (`poll::import_step`);
`app/` does not run it yet, as its ledger keeps no page checkpoints.

`app/` is the headless `stellr` executable (serve mode): it reads the
command line, the environment and the disk, talks to GitHub over HTTP and
serves the cockpit, leaving every decision to the library.

`tests/` holds the tests of the library.
