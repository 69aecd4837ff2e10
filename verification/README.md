# rspf

A Postfix SPF policy delegation daemon. Postfix hands each recipient
check to the daemon as a block of `name=value` lines; the daemon evaluates
SPF (RFC 7208) for the HELO name and the envelope sender and answers with
a policy action: prepend a `Received-SPF` header, reject, defer, or
`dunno`.

The library (`src/`) is verified with Verus: request framing and parsing,
the decision engine, the `Received-SPF` header, the whitelist, SRS
unwrapping, configuration checks, IP and socket address text, and the
per-request plan (which requests are exempt, which sender is evaluated).
Calls into `hmac`/`sha1`, `base64`, `ipnet`, `viaspf` and `tracing` stand
behind small trusted wrappers whose contracts name what those crates
compute.

`app/` is the daemon around it: TOML configuration files, the tokio
listeners and connections, DNS through hickory, SPF evaluation through
viaspf, stdout logging and the syslog mirror, and signal handling
(SIGHUP reloads the configuration and whitelist).

Layout:

- `src/config` – configuration model and its validation
- `src/engine.rs` – from the two SPF outcomes to one action
- `src/proto` – request framing, request attributes, response actions
- `src/spf` – SPF outcomes, the `Received-SPF` header, forced records,
  checked identities
- `src/whitelist.rs`, `src/srs.rs`, `src/server.rs` – exemptions, SRS0
  unwrapping, and the plan for one request
- `src/net` – IP addresses, networks, socket addresses, their text
- `src/mail_log.rs`, `src/logging.rs` – the syslog line and log levels
- `tests/` – scenarios on concrete values
