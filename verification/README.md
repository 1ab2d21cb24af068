# marathon_api

A small task queue service. Clients submit tasks (a command line and its environment), the
server keeps them in a store with a first-in, first-out work queue, and workers pull tasks,
run them and report how they went.

- `src/` is the verified library (Verus): the task store and its queue (`database`), the
  endpoint handlers' answers (`server`), the response envelopes and how a client reads them
  (`responses`, `client`), task identifiers and statuses (`task`), the parsing of `-e`
  environment arguments (`environment`), and the worker's decisions (`worker`).
- `app/` is the program around it: the HTTP server (axum), the HTTP client (reqwest), the
  worker loop, running commands, JSON forms of the library's types, and the command line.
- `tests/` exercises the library.
