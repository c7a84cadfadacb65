# scheduler_module

The decision-making core of a multi-channel digital-employee service, written
in Verus: every public function in `src/` carries a `requires`/`ensures`
contract over mathematical models (`Seq`, `Map`, `int`, views) and is proved
against it; the few private helpers without a contract are proved
free of panics and overflow.

## Layout

- `src/` — the verified library.
  - `text`, `number`, `order`: string operations, decimal parsing and
    lexicographic sorting, each with its meaning as a spec function.
  - `memory_diff`, `memory_queue`, `blob_store`: section diffs of memo files,
    how they are merged, queued and stored.
  - `gateway`, `webhook`, `channel`, `ingestion`, `ingestion_queue`, `fanout`,
    `message_router`: inbound routing, webhook authenticity, queue payloads
    and the quick-reply router's decisions.
  - `google_auth`, `google_drive_changes`, `google_workspace_poller`,
    `notion_webhook`, `github_inbound`, `discord_gateway`: per-source
    settings, token caching and bookkeeping.
  - `index_store`, `mongo_store`, `collaboration_store`, `env_alias`,
    `cli_args`: task index, store naming and settings.
  - `domain`: startup-workspace planning (blueprint, resources, roster,
    starter tasks, artifacts).
  - `gtm`: the go-to-market agents and the HubSpot dispatch state machine.
  - `digest` and the `external_body` wrappers next to their callers: the
    calls into `md5`, `sha1`, `sha2`, `hmac`, `hex`, `base64`, `uuid`,
    `regex` and `serde_urlencoded`, each with the contract the crate documents.
- `tests/` — tests of the library on concrete values.
- `app/` — process-level code around the library: reading the environment
  and the clock, HTTP calls, threads, and the floating-point measurements.

## Collections

Maps and sets keyed by strings are held as vectors, whose contents the
contracts can describe exactly; each one states as its invariant or contract
what the map or set guaranteed:

- memo diffs: the changed sections (a map from section name) are
  `SectionChanges`, a vector of `(name, change)` with each name once, a later
  change for a name replacing the earlier one; parsed sections are a vector
  in document order, first occurrence found by name; the lines of the
  original memo used to find added lines are a vector searched by trimmed text;
- Drive push notifications: the channel-by-file and file-by-resource maps
  are the two vectors of `WatchRegistry`, with unique keys as its invariant;
- workspace poller: the employee addresses (a set) are a vector without
  duplicates;
- gateway: route tables, channel defaults and the address-to-employee map are
  vectors of pairs looked up by key, with the precedence the map gave;
- Twilio signatures: the form fields (a sorted map) are a vector sorted by
  name, one value per name;
- task index: the next runs by task id (a sorted map) are a vector sorted by
  id without repeats;
- go-to-market agents: contacts by recipient, industry counts, promoted
  segment ids and clusters by theme are vectors (clusters in theme order);
  the HubSpot contact cache is a vector inside the dispatch state.

