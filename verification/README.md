# acp_harness

The client side of the Agent Client Protocol, verified with Verus.

An agent runs as a background process and speaks JSON-RPC over its standard
streams, one message to a line. The library decides; it does no input or output
of its own.

- `harness`, `runner`: from a command to a program with arguments, and from a
  run that is set up to one that is over.
- `session`: the conversation, line by line.
- `client`, `tasks`, `terminals`, `connection`: what the agent asks of its
  client (files, terminals, permissions), and what it is told.
- `path`: the sandbox that keeps files under the working directory. Paths are
  POSIX paths, as text; `app/` runs no session on a system with others.
- `rpc`, `json`, `codec`: messages, JSON values, and their text by way of
  `serde_json`. A message is written as one line; the line reads back as the
  message where all its numbers are integers and its arrays and objects are
  nested no more than 127 deep.
- `*_laws`: what holds whatever the agent sends. Every request is answered once
  and under its id, also one that is refused; no file outside the working
  directory is touched.

`app/` performs the work: it spawns the agent, moves the lines, and reads and
writes the files.
