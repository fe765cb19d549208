# comon

A terminal dashboard for local Codex sessions: tokens, time and runs per day, the activity of
projects, the limits of the account, and the history of sessions.

- `src/` is the library. What the dashboard computes and decides is stated there in contracts and
  proved with Verus: reading session logs, planning a refresh, adding up totals, laying out and
  drawing the screens, keeping the state, and answering keys, clicks and messages. What holds of
  several refreshes together stands in `src/usage/laws.rs`, `src/usage/order.rs`,
  `src/usage/models.rs` and `src/usage/cache.rs`.
- `app/` is the program around it: arguments, files, the database, the app server and the terminal.
- `tests/` runs the library.

What the library takes from other crates without proof stands next to the items that call them:
`serde_json` for JSON text (`src/json.rs`, `src/codex_rpc/request.rs`), `chrono` for dates and the
local time zone (`src/clock.rs`, `src/calendar.rs`), `ratatui` for splitting areas
(`src/ui/geometry.rs`) and `unicode-width` for the width of text (`src/ui/wrap.rs`).

Some things the contracts leave open. Which time zone the machine has and what day it is: a date and a
time are only known to be within a day of those in UTC. How `ratatui` shares out an area whose parts do
not fit: each part is then only known to lie inside. How paths fall into parts that hold a backslash or
a colon, or that are not written in the shortest way (`src/paths.rs`).
