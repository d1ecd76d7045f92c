# headroom_proxy

The verified core of a reverse proxy for LLM traffic, and the plumbing around it.

- `src/` is the library. Each function carries a contract that Verus proves; the
  functions named `law_...` state what holds across functions. The calls into
  other crates are in `src/outside/`, with contracts that are believed.
- `app/` is the axum application: sockets, streaming and shared state. It asks
  the library what becomes of a request, a response or a stream; what it writes
  to the log is its own affair.
- `tests/` runs the library on concrete values.
