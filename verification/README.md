# warden-sdk

Client library for the Agent Warden services: the proxy, the ledger, the identity
service, the policy engine and the simulator.

`src/` is the verified library. It opens no connection. For every call of a service it
makes the request (method, URL, token, body) and reads the reply (status, body, decoded
body). Contracts say exactly which request is made and what every reply comes to.

* `text` percent-encodes path segments, and writes query pairs and numbers.
* `route` shows that a path of fixed words and encoded values is resolved as it stands.
* `http` joins paths to a base URL and maps statuses to errors.
* `client`, `ledger`, `agents`, `policies` and `sim` are the clients.
* `error` is the one error type.
* `outside` holds the calls into other crates, with what is taken for granted of each.

Functions named `law_...` state what holds across calls: that encoding loses nothing,
that every value but `.` and `..` stays one segment of its path, that the audit endpoints
share no path but for one pair of ids, that different arguments make different paths and
queries, that a state is read back from its wire form, that the requests of a client are
numbered from 1 and no two of them alike.

One thing to know when choosing ids: `.` and `..` are made of unreserved characters, so
they are not escaped, and a URL resolver takes them as dot segments.

`app/` is ordinary async Rust around the library: it sends, receives, and turns JSON
into values. `tests/` runs the library with the real outside crates.
