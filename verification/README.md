# muon

A web server built for ease of use and speed, whose decisions are written in
Verus and proved against their contracts.

## Layout

- `src/` is the verified library:
  - `settings.rs`: the settings file's model, its defaults, the log switches
    and how log levels and templates turn them on, and how the settings of a
    run are put together;
  - `handlers/`: request paths (sanitising and joining), the static handler and
    the routed handler (`samicpp`): route matching and its cache, credentials,
    request plans, file kinds, error pages, byte ranges, redirects and
    template files;
  - `servers.rs`: listener options per protocol, addresses, ALPN, how a
    connection starts, h2c upgrades and the response-time stamp;
  - `ssltls.rs`: the certificate a TLS client gets for the name it asks for;
  - `console.rs`: console commands and the supervisor of a server run;
  - `startup.rs`, `logger.rs`, `arguments.rs`, `text.rs`: start-up decisions,
    request summaries and log masks, the command line, and text helpers.
- `tests/` runs the library on concrete values.
- `app/` is the program around it: the command line, files, sockets, TLS,
  the HTTP sessions and the runtime.
