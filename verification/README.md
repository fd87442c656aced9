# asp_dot_rust

A small web framework in the style of ASP.NET, written in Verus: the logic of the
framework is verified, and the parts that wait on sockets, timers or the environment
stay in ordinary Rust around it.

## Layout

- `src/` — the verified library.
  - `configuration/` — command-line settings (`StartupAppConfiguration`), CORS settings
    and the other configuration sections with their defaults.
  - `controller/` — action results, routing declarations and their checks, how a routed
    action fills the response, the controller registry.
  - `controllers/` — the sample `HomeController`.
  - `dependcy_injection/` — the dependency graph and its cycle check, the injection
    wrappers, and how injection fills parameters and fields.
  - `http_context/` — headers, request, response, the request byte stream.
  - `application/` — where an application listens, and building it once the
    dependencies between services are checked for cycles.
  - `middleware/` — how a middleware is made from its impl block.
  - `hosted_service/` — background services.
- `app/` — I/O, async and serde around the library: reading from and writing to the
  connection, conversion from and to the `http` crate's types, command-line and TLS
  setup, background tasks, reloadable configuration.
- `tests/` — tests of the library on concrete values.
