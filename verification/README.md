# rdapify

An RDAP (Registration Data Access Protocol) client whose logic is written in
Verus and proved against its contracts.

- `src/` — the verified library: SSRF protection (`security`), IANA
  bootstrap matching (`bootstrap`), the in-memory response cache (`cache`),
  the fetch policy and the response normaliser (`http`), query input
  handling (`client`), the streaming events (`stream`), the response types
  (`types`) and the JSON document model they are read from (`json`).
  Each module states its laws as public proof functions named `law_*`.
- `tests/` — tests of the library on concrete values.
- `app/` — the `rdapify` command line and the asynchronous client around
  the library: HTTP transport, the bootstrap file downloads, concurrency
  and JSON output.
