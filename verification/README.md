# portfu

The core of an HTTP framework, verified with Verus: routes and their
patterns, request filters and wrappers, the choice of the service that
answers a request, the bodies of requests and responses, small caches,
header and address checks, TLS settings, the options and handler signatures
that the service attributes accept, and the plans an operator applies to a
cluster to deploy a runtime.

- `src/` is the library. Every function there carries a contract that Verus
  proves; calls into outside crates (`regex`, `urlencoding`, `tungstenite`,
  `http`, `rustls-pemfile`, `rustls-pki-types`, `uuid`) go through small
  trusted wrappers whose contracts are stated in their doc comments.
  Properties that relate several operations are stated as `law_*` proof
  functions next to the code they are about.
- `app/` holds what meets the outside world: the process environment,
  sockets, HTTP header maps, processes, the serde forms of the settings, and
  the type-indexed request data.
- `tests/` runs the library on concrete values.
