# zks

The verified core of `zks`, a command-line tool for ZKsync chains: how the
prover's job statuses add up to the status of a batch, which stages of a
batch are shown, proof times, the SQL statements sent to the prover
database, configuration profiles, calldata encoding and decoding, and the arithmetic of
load tests.

- `src/` is the library, verified with Verus. `status`, `jobs`,
  `prover_status`, `stage`, `report`, `proof_time` and `batches` hold the
  prover status logic; `db_queries` the database statements; `config` the
  configuration profiles; `signature`, `calldata`, `array_sizes` and `hex_text`
  the ABI helpers; `uint`, `gas_tracker` and `load_test` the 256-bit amounts and the
  load test; `text`, `decimal` and `grouping` shared helpers.
- `tests/` runs the library on concrete values.
- `app/` is the command-line program around it: argument parsing, files,
  prompts, the database connection and printing.
