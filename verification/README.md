# qcg_server

The HTTP server in front of a run service, with its decisions verified by Verus.

`src/` is the library. It holds no socket, file or clock: it takes what was read
and says what is to be done, and each function's contract says exactly which.

| modules | what they decide |
|---|---|
| `environment`, `policy`, `cors`, `rate_limit`, `otlp` | deployment policy, resolved once per boot; `rate_history` states what the limiter promises over any course of requests |
| `serve`, `shutdown` | the order of boot, serving and settlement |
| `gate`, `auth` | which requests reach a handler |
| `idempotency` | keyed mutations: claims and mappings on a shared file system, the in-memory table, and the state machine of one request; `idempotency::laws` states what the protocol promises across calls, and `idempotency::replay` what a repeated request is answered |
| `mutation`, `etag`, `artifact`, `journal`, `events`, `listing`, `metrics` | what requests are answered |
| `exporter`, `spans`, `payload` | which records are exported, and as what |
| `error`, `digest`, `header`, `json`, `text`, `table`, `order` | what the others are built from |

Calls into other crates stand behind small functions marked
`#[verifier::external_body]`; the comment above each says what is claimed of the
call.

`app/` is ordinary Rust around the library: the router, the file store, the
event streams, the exporter and the signal handling. It takes the run service
and the deployment's defaults from the program that embeds it (`app/host.rs`).

`tests/` runs the library on concrete values.
