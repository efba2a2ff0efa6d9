# confluence_cli

An Agent-friendly command line for Confluence Cloud: every command prints a
stable JSON envelope, page writes are dry runs unless `--execute` is given,
and Markdown bodies are checked against a supported subset before they are
rendered to storage HTML.

## Layout

- `src/` — the library, verified with Verus. Each public function states in
  its contract what it returns; the laws of the library (redaction of
  credentials, envelope shapes, dry-run safety, configuration validation,
  CQL escaping, version numbering) are public proof functions.
  - `text.rs` — text operations with specifications (trimming, case,
    replacement, decimal numbers).
  - `json.rs`, `redact.rs`, `error.rs`, `output.rs` — the JSON model, the
    redaction of credential-like members, stable errors and envelopes.
  - `config.rs`, `auth.rs`, `client.rs`, `content.rs`, `dry_run.rs` — the
    configuration, Basic authentication, the request and response rules of
    the REST API, Markdown conversion and dry-run summaries.
  - `commands/` — the decisions of each command.
- `app/` — the program: argument parsing (clap), configuration files
  (toml), HTTP (reqwest), prompts and printing. It hands plain values to
  the library and acts on what comes back.
- `tests/` — tests of the library on concrete values.
