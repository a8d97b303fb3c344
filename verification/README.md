# ztch

A terminal session manager: a daemon keeps a child process alive behind a
pseudo-terminal, and clients attach to it, detach from it, push input into it
and stop it through a Unix-domain socket.

- `src/` is the verified library: the wire protocol, the scrollback ring and its
  replay, the daemon's state and decisions, the client's commands, the session
  directory, the logs and the command line. It performs no I/O. Where a task
  alternates system calls and decisions, a function takes the outcome of the
  last call and tells what to do next.
- `app/` is the program around it: it makes the system calls.
- `tests/` runs the library on concrete values.
