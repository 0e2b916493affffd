# sleepproxy

A proxy in front of a Minecraft server that sleeps when it is empty. It answers
server-list pings itself, wakes the server on a login, and holds the player on
the connecting screen until the server is up.

- `src/` is the verified library: the wire format, MOTDs, status answers, the
  session list and the decisions that drive every connection. Each connection,
  join, hold and session is a step function from what happened to what to do.
- `app/` is the program around it: sockets, timers, tasks, the environment, and
  the floating-point colours of gradients.
- `tests/` exercises the library on concrete values.

The functions `law_*` state what holds of the library as a whole.
