# mc-tui

A terminal manager for a local Minecraft server: worlds, whitelist, operators,
settings and logs on one screen, with the server's console and its public
tunnels beside it.

`src/` is the logic, verified with Verus. It reads no disk, socket, clock or
keyboard; it works on plain values and says what is to be done.

- `text`, `json`, `sizes`, `clock`: strings and numbers, JSON documents, byte
  counts, moments.
- `properties`, `players`, `uuid`, `worlds`, `processes`: the server's files and
  what they say.
- `state`, `state_laws`: the state behind the screens, what each key does to it,
  and what holds whatever is typed.
- `screen`, `geometry`: what the screens show, and where.
- `natfrp`: the tunnel service's requests and replies.
- `console`: the session that the server runs in.

`app/` is the program around it: files, processes, terminal, network and
sessions. `tests/` runs the library.
