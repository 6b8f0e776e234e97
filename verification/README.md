# signing-gateway

A cryptographic signing gateway. Services ask it for signatures over HTTP or gRPC instead of holding
private keys; it checks who asks, from where and for which key, and has a backend sign.

The library under `src/` is verified with Verus. It decides everything that can be decided without
touching a socket, a file or a PKCS#11 session:

| Module          | What it holds                                                             |
|-----------------|---------------------------------------------------------------------------|
| `config`        | the configuration and the signature algorithms                            |
| `auth`          | bearer tokens, key allowlists, address allowlists                         |
| `net`           | addresses, address ranges, the client's address behind trusted proxies    |
| `encoding`      | hex, base64 and PEM                                                       |
| `hsm`           | what a backend offers; errors, keys, signatures, digests                  |
| `hsm::software` | the backend with keys in memory, for development and tests                |
| `hsm::cluster`  | the PKCS#11 backend without its sessions: register, plans, retries        |
| `hsm::crypto`   | the calls into the cryptographic crates, and what is believed of them     |
| `http`, `grpc`  | what each endpoint answers                                                |
| `state`         | what the servers share, and the development configuration                 |

Functions marked `external_body` are the boundary: each makes one step outside the library, often of
a few calls in a row such as reading a key and signing with it. Its doc comment names the calls and
says what is taken for granted about them.

`app/` is the program around the library: configuration files, key files, PKCS#11 sessions, the HTTP
and gRPC servers. `tests/` runs the library against the real outside crates.

A payload that is marked as prehashed is taken for a digest of the algorithm that it is signed under,
and is not digested again. For RSA it must have the length of that algorithm's digests: a SHA-256
digest can be signed under RS256 or PS256, and is refused under RS512. For elliptic curves it must have
at least half the length of the curve's numbers. HMAC takes it as it is.

The public laws, such as that a signature goes only to a caller with the right token, address and
key, or that what a key signs also verifies, are `pub proof fn`s beside the code they
speak of.
