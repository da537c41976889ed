# cmonitor

The login policy and the browser terminals of the Cmonitor hub, verified with
[Verus](https://github.com/verus-lang/verus).

`src/` is the library. It decides on plain values and every function in it is
proved to meet its contract:

| module | what it holds |
|---|---|
| `store` | the tables `setting` and `session`, and the statements that change them |
| `security` | the login configuration, logins, recovery, changes of the settings |
| `policy` | what the login policy promises: nobody is locked out, passwords are only off behind a verified GitHub login, stale logins are refused |
| `registry` | the open terminals and the browser behind each |
| `terminal` | what browsers and agents may say, and a terminal session as a machine |
| `channel` | channels to browsers and agents, with a record of what was put to them |
| `frames`, `limits` | the frames, and that they fit what an agent takes |
| `json`, `names`, `text`, `token` | JSON text, name lists, strings, digests and tokens |

The operations on the tables return the statements they executed. `app/` keeps
the tables in SQLite, loads them, lets the library decide, and executes those
statements in the same transaction. It also owns the sockets: it performs the
actions that `terminal::step` asks for and hands back what came of them.

What is taken on trust is marked `external_body` or `assume_specification` and
says so above the item: `serde_json` for writing and reading JSON, `sha2` for
digests, `rand` and `chrono` for chance and time, `tokio` for channels, and two
functions of `std` on strings.
