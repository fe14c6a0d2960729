# frost_core

Iceberg table health analysis, verified with Verus: the metadata model,
fifteen health checks, fix-command generation, fleet and catalog roll-ups,
watch-mode change detection with its alert cooldown, and the parsers for Iceberg metadata JSON and
Avro manifests. Every public function states its result in its contract.

Layout:

- `src/` — the library. `checks/` holds one module per check; `engine`
  runs them into a report; `fix`, `fleet`, `tools` and `watch` build the
  answers the command line and the agent tools give; `parse/` reads
  manifests (through `apache_avro`) and resolves metadata documents;
  `catalog/` and `object_store` hold the path, URL and identifier rules of
  the backends; `clock` wraps `chrono`.
- `tests/` — tests against the library.
- `app/` — the `frost` command (with an `mcp` subcommand serving the agent
  tools): configuration files, catalog and object-store I/O, the SQLite
  watch state, webhooks, terminal rendering and the floating-point cost
  estimate.
