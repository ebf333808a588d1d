# lcu_autopick

A companion for the League of Legends client. It reads the client's lockfile,
talks to the client's local HTTP API and WebSocket, and, while the user is
marked ready, answers the start of champion select with a random champion,
two random summoner spells and a random rune page.

- `src/` is the verified library: decimal text, the lockfile, JSON values,
  the WebSocket frames, the picks, the rune page builder, the HTTP requests,
  and the session with the WebSocket as a state machine (`watcher`).
- `app/` is the Tauri program around it: the window, the tray, the HTTP
  client, the socket and the log.
- `tests/` runs the library on concrete values.
