# Task Manager

A scheduler for small jobs: it starts tasks by the clock, by mail, by messages on
ntfy topics or by other tasks, and it runs HTTP requests, commands, checks of files
and paths, and updates of Cloudflare records and lists. A service does the work; a
desktop application configures it.

The rules of all this are a library verified with Verus.

- `src/` is the library. Each function states what it returns or changes, and the
  statements are proved. What the library has from other crates (encryption, hashes,
  JSON, identifiers) stands behind small trusted functions that say what is assumed.
- `app/` is what surrounds the library: the windows, the network, files and the clock.
- `tests/` runs the library.

| Module | What it holds |
|--------|---------------|
| `task` | Tasks, what starts them and what they do |
| `scheduler` | Which tasks an event starts, how runs end and lead to other runs |
| `actions` | What runs ask for and what they make of the answers |
| `variables` | Variables in the texts of tasks |
| `cloudflare`, `pushover`, `http` | Requests to services and their replies |
| `smtp` | The mail server |
| `ntfy_listener` | The listener on topics |
| `crypto`, `hash` | Sealed secrets, verifiers, hashes of files |
| `config`, `logger`, `service` | Configuration, log files, start of the service |
| `app`, `editor` | The state of the desktop application and what it shows |
| `clock`, `text`, `number`, `json` | Time, text, numbers and documents |

## Running

The desktop application starts without arguments. The service starts with
`--service`, or from an executable named `task_manager_service`; it takes the master
password from the environment variable `TASK_MANAGER_PASSWORD`.
