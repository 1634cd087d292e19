# overseer

A process supervisor. It runs the programs of a configuration file, restarts
each one when it exits unless too many restarts fall within a time window,
checks the health of programs that serve HTTP and restarts them when the checks
keep failing, and relays HTTP requests to the programs by path prefix.

## Layout

- `src/` is the library, verified with Verus:
  - `time` — spans of time and points on the monotonic clock;
  - `text` — decimal numbers, trimming and splitting of text;
  - `config` — the configuration of a program, its defaults and the parsing of
    its command line;
  - `error` — the errors of the supervisor and of health checks, with their messages;
  - `logger`, `log_format` — log records and the layout of log lines;
  - `proxy` — the routing table, the upstream of a request and the headers of
    relayed requests (`proxy::handler`);
  - `supervisor` — restart accounting (`retry`), the restart loop and the
    abortable wait for a child (`futs`), the lifecycle of a program
    (`caretaker`) and its health checks (`health`);
  - `endpoints` — the answers of the status and health endpoints.
- `app/` is the program around it: reading the configuration file, the actors,
  spawning and stopping children, the HTTP server and client, signals and the
  terminal log. It converts between the library's types and those of the
  outside crates, performs the I/O and hands the results to the library, which
  decides what follows. The configuration file may name the scope under which
  the status and health endpoints are served (`api_scope`); it is `/api` when
  the file names none. Terminal styling of log lines is applied by `app/` to
  the parts of a line that the library lays out.
- `tests/` runs the library on concrete values.
