# groundcover-cli

A command-line client for Groundcover observability data (logs, traces,
events, metrics, issues, alerts, API endpoints, workloads, Grafana), built
around a library whose behaviour is proved with Verus.

## Layout

- `src/` — the verified library:
  - `text.rs`: character-level string operations (trimming, lines, splitting,
    joining, padding, cutting at UTF-8 byte offsets, decimal numbers), each
    with its specification;
  - `duration.rs`: time spans such as `15m`, `1h`, `7d`, `30s`;
  - `error.rs`: the errors and their messages;
  - `json.rs`: JSON values as the client reads them;
  - `config.rs`: the stored API key and Grafana token;
  - `client.rs`: the HTTP requests sent to the datasource API and to Grafana,
    and how their answers are judged;
  - `helpers.rs`: reading credentials from the `groundcover` tool's output,
    building clients, title filtering;
  - `table.rs`: fixed-width tables from tab-separated rows;
  - `commands/`: the SQL of each subcommand and the layout of its answer;
  - `laws.rs`: properties that hold for all inputs.
- `app/` — the program around it: argument parsing, HTTP, files, the
  `groundcover` tool, printing.
- `tests/` — tests of the library.
