# herdr_file_viewer (verified core)

The launch-context and remote-notice logic of the herdr file viewer, written
in Verus with contracts and proofs.

- `src/host.rs` — the launcher's placement marker (`parse_placement`).
- `src/context.rs` — the projection of the host's context document.
- `src/text.rs` — whitespace trimming as `str::trim` has it, and character
  access to strings.
- `src/update/` — remote notices: versions, release details taken from a
  changelog, the project spotlight, the persisted cache, the startup decision
  (`decide`) and the decisions of one background refresh
  (`changelog_request`, `complete_refresh`), with the laws that tie them
  together (for example, a stored cache re-projects the snapshot that the
  refresh published).
- `app/` — the process-facing side: environment, cache file, `git` and
  `curl`, and the background thread. It takes no decision of its own.
- `tests/` — the behaviour on concrete values.
