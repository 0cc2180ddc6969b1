# rust_servicemesh

A service-mesh data-plane proxy whose decision-making core is verified with
Verus.

- `src/` is the verified library: routing rules, circuit breaking, token-bucket
  rate limiting, retry backoff, load balancing, connection limiting,
  configuration checks, admin answers and the forwarding decisions of the
  proxy service. Each public function states its result over a mathematical
  model (`Seq`, `Map`, views of the types), and the laws that span several
  calls are public proof functions next to the code they are about.
- `app/` is the program: it reads the environment, runs the HTTP/1.1 and
  HTTP/2 listeners (hyper, tokio, rustls), keeps the metrics registry
  (prometheus-client) and parses routing files (serde, toml, serde_json),
  calling the library for every decision.
- `tests/` exercises the library on concrete values.

Times are kept as whole milliseconds on a monotonic clock, so every
time-dependent operation has an `_at` form that takes the time explicitly and
is specified exactly; the plain form reads the clock.
