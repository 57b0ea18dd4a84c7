# codewhale_plugins

Trust, enablement and naming policy for Codewhale plugin bundles and for
Codewhale-owned xAI OAuth credential files, verified with Verus.

- `src/` is the verified library:
  - `types` — bundles, scopes, origins, diagnostics, trust status;
  - `state` — the persisted state (enablement, trust receipt, review
    history) and its transitions, with the read-after-write and
    trust/enablement-separation laws;
  - `registry` — the registry of discovered bundles; state changes are
    prepared from the live state, persisted by the caller and committed
    with the outcome of the write (a failed write changes nothing; an
    unreadable state file makes the registry fail-closed);
  - `commands` — the `/plugin` command: parsing, routing each command to
    an answer or to a step for the host (persist a change, rediscover the
    bundles), listing, review tokens, validation, lifecycle planning and
    the legacy tool inventory;
  - `credentials` — xAI OAuth generation names, the credentials directory
    walk and the owned-file removal policy;
  - `text`, `words` — string helpers with exact specifications.
- `app/` holds the file-system, serialization and process-global plumbing.
- `tests/` runs the library on concrete values.
