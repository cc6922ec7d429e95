# skiddo_bot

A Discord bot that spawns sandboxed JavaScript "skiddos" and talks to them.
The library under `src/` is verified with Verus; `app/` holds the processes
around it (the D-Bus manager, the worker that embeds the JavaScript engine,
and the bot itself).

Library modules:

- `message`: numbered messages between the manager and a worker.
- `worker`: what a worker does with each frame it receives.
- `instance`: the manager's record of one running skiddo and its conversation.
- `manager`: the registry of running skiddos, one per skiddo file.
- `args`: role selection from the command line, and the arguments a worker
  is started with.
- `memfs`: the in-memory file system of the `vfs` crate, as the library sees it.
- `ext`: the file and log operations offered to the JavaScript side.
- `text`: log prefixes, command replies and log lines.
