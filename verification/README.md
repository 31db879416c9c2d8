# Kronforce

A job scheduling engine: cron (second precision), calendar, interval, one-shot
and event-triggered jobs, run locally as shell, SQL, FTP, HTTP, messaging,
file-push, MCP, Docker and Rhai-script tasks, with an MCP server endpoint.

## Layout

- `src/` — the library, verified with Verus. Every public function carries a
  contract over mathematical models (`Seq`, `Map`, spec functions and views):
  - `scheduler/` — cron parsing and next-fire search, calendar rules, the tick
    decisions and the fire times kept between ticks, event matching;
  - `executor/` — placeholder substitution, connection settings, output rules,
    command lines of every task type, outcomes of runs, MCP client messages,
    notifications, dispatch decisions, script-store paths;
  - `mcp_server.rs` — the tools on offer and the routing of JSON-RPC requests;
  - `db/` — the record types and what the dashboard statistics are computed from;
  - `json.rs`, `text.rs`, `datetime.rs` — JSON values, text and calendar helpers.
  Calls into `chrono`, `regex`, `serde_json`, `base64`, `url` and `uuid` stand
  behind small trusted wrappers whose contracts are documented where they are
  declared.
- `tests/` — tests of the library on concrete values.
- `app/` — the controller program: SQLite storage, the scheduler loop, process,
  HTTP and file I/O, the Rhai runtime and the `POST /mcp` endpoint, all deciding
  through the library.
