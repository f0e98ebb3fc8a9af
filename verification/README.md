# pgferry

A programmable PostgreSQL proxy whose decisions are verified with Verus.

The library in `src/` decides; the program in `app/` performs. Messages,
connections and clocks are plain values to the library, so that what a session,
a pool or a router does can be stated exactly and proved:

- `session` — admission of clients, the message pump (`model` holds its
  mathematical model, `pump` the code that is proved to follow it, `laws` what
  holds of every session), attaching connections with their session state, and
  the registry of prepared statements;
- `pool` — checkout, checkin and eviction within a fixed capacity, and bringing
  a used connection back to a neutral state;
- `scatter` — planning, collecting and merging queries that run on many shards;
- `routing` — passive endpoint health, read/write splitting, failover;
- `intercept` — what hooks see and answer, editing rows, and ready-made helpers;
- `admin`, `metrics`, `runtime`, `cancel` — the operational surface;
- `proxy`, `settings`, `config`, `tls` — composing a proxy, and its keys and
  certificates;
- `wire`, `text`, `textmap`, `time` — the vocabulary of the rest.

`app/` holds the sockets, TLS, timers, tasks, the asynchronous `Interceptor`
trait and the command line. It asks the library for each step, performs it, and
reports what happened.

A few functions are believed rather than proved: they call the standard library,
`regex`, `rustls` or `pgwire`, and their doc comments say what is claimed of the call.
