# susi

The decision core of the susi substrate, written in Verus and proved
against its contracts: prompt classification and formatting, input
governance, mission planning and retry accounting, swarm dispatch and
consensus, peer discovery, model-ladder planning and download retries,
the reality check of mission answers, the evidence ledger, signed
evidence records, compliance and bloat audits, the GMCP protocol handler
and the REST routing of the inference server.

## Layout

- `src/` — the verified library. Each module states its results over
  spec functions (`Seq`, `Map`, `int`, `nat`) and proves them. Public
  proof functions whose names begin with `law_` state properties that
  span calls, such as what a read gives back after a write or that a
  mission retries at most twice.
- `src/` also holds the trusted items: small `external_body` wrappers
  around `regex`, `serde_json`, `sha2`, `md5`, `url`, `shlex`,
  `crossbeam`, `dashmap`, `base64` (the reflex replication payload) and
  `syn` (whether a source file parses, for the bloat audit), each with a
  doc comment naming what it calls and what its contract claims. Hex
  digests are rendered by a proved function rather than a wrapper.
- `tests/` — executable tests of the library, run against the real
  outside crates.
- `app/` — the process shell: command-line parsing, files and sockets,
  the stdio and discovery loops, the floating-point heuristics, and the
  `syn` visitor that counts functions, method calls and `unsafe` blocks
  for the bloat audit. It
  performs the outside work that the library's step functions ask for
  and hands the results back.

Work that depends on time, the machine, the network or the file system
is done in `app/`; the library takes its results as arguments and says
what follows from each of them.
