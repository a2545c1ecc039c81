# kaforge

The core of a Kafka desktop client, written in Verus. Every function in
`src/` carries a contract, and Verus proves all of them but those of the
small trusted wrappers (marked `#[verifier::external_body]`) that call
rdkafka, uuid, base64, serde_json, apache-avro, chrono and two std string
functions: their contracts are read off those crates' sources and
documentation and taken on trust.

## Layout

- `src/` — the verified library
  - `config` — saved cluster settings, SASL mechanism names, MSK IAM preparation
  - `client` — the rdkafka client settings of a cluster, the records built from
    the cluster's answers, and how a produce request and a one-off poll proceed
  - `avro` — Avro schemas and datums, read with the Avro crate
  - `sr` — Schema Registry requests and what their replies give, payload decoding
  - `ssh` — what an SSH local forward connects to
  - `clock` — Unix times shown as UTC dates, written with chrono
  - `stream` — consumed records, and what a running stream sends, within its caps
  - `rows` — what each pane fetches and the table rows made from it, CSV
    export, record search, the small forms of the panes
  - `connections` — the list of saved clusters, Kafka-King import
  - `docs` — document kinds, their icons, table columns and toolbars; the sidebar
  - `pane` — the state of a document pane: requests it makes, answers it takes
  - `workspace` — open sessions and their tabs, storing and restoring them
  - `picker` — the connection form
  - `text` — string helpers stated over `Seq<char>`
- `tests/` — tests of the library
- `app/` — a command-line front end: files, the network, rdkafka, SSH and the
  registry's HTTP calls; it hands the library plain values and acts on what
  comes back

## Verifying

Verus checks `src/lib.rs`; `tests/` run with the outside crates linked.
