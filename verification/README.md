# deskd

The rules of a daemon that runs agents and lets them talk over a bus, as a
verified library, with the daemon itself around it.

- `src/` is the library. Every function states what it returns or changes, and
  Verus proves it. JSON, YAML, dates, signatures and identifiers come from
  `serde_json`, `serde_yaml`, `chrono`, `chrono-tz`, `cron`, `hex`, `hmac`, `sha2`
  and `uuid`, behind small functions whose contracts are trusted.
- `tests/` runs the library on concrete values.
- `app/` is the daemon: sockets, files, processes, HTTP and the terminal. It asks
  the library what to do and does it.

## The library

| Part | What it decides |
| --- | --- |
| `federation` | frames between hub and peers, topic routing, forwarding without loops, keepalive, reconnecting, the registry of peers, who may connect |
| `mcp`, `mcp_protocol`, `mcp_service`, `mcp_tools` | the MCP server of an agent: requests, the list of tools, their arguments, access rules and replies |
| `bus_api` | queries and commands on the bus |
| `a2a_server`, `jsonrpc` | requests of other workspaces, and their wire form |
| `web` | the webhook of GitHub, the audit log, and the pages of the dashboard |
| `needs` | the needs that an agent adds to its configuration |
| `adapters`, `serve` | which adapters and workers an agent gets |
| `agent_state` | the state document of an agent |
| `config_changeset`, `context`, `timeout_sweep` | changes of configuration, the context of a session, tasks that run too long |
| `metrics`, `metrics_cache` | samples of disk usage, and the file that keeps them |
| `tasklog`, `tasklog_file`, `tasklog_costs`, `tasklog_report` | the log of tasks, its file and its reports |
| `commands`, `tui` | what the command line and the terminal screen show |
| `json`, `json_text`, `yaml`, `text`, `decimal`, `clock`, `ids`, `names`, `order`, `same` | what the others are built on |

Amounts of money are floating-point numbers. The library carries them as text,
with a rank where they are sorted; the daemon does the sums.
