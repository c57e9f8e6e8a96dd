# herdr-system-notify-bridge

Desktop notifications for [herdr](https://herdr.dev). When an agent in a background workspace needs
you (`blocked`) or finishes (`done`), the daemon shows a notification and notes the pane in
`~/.config/herdr/last-attention-pane`. Transitions that fall into the gap around a reconnect are
recovered by comparing a snapshot with the statuses carried over.

The library under `src/` makes every decision and is verified with Verus; `app/` connects to the
socket, runs the programs and writes the files.

| Module | What it holds |
|---|---|
| `text` | comparing, trimming, decimal numbers |
| `json` | JSON documents, read and written through `serde_json` |
| `panes` | maps and sets of panes |
| `snapshot` | what a session snapshot says: agent rows, focus, workspace labels |
| `notify` | when a notification is due, and what it says |
| `state` | the statuses carried over, status events, and the comparison with a snapshot |
| `subscribe` | the subscription request, its acknowledgement, and dropping vanished panes |
| `event` | the messages of the event stream |
| `bridge` | the life of a connection as a state machine |
| `paths` | files and log lines |
| `laws` | what holds of the daemon as a whole, as proof functions |

What is believed without proof stands in `json`: six functions that call `serde_json`, its document
type, and the names for what it reads and writes.
