# deployer_persistence

What a deployer keeps about the services it runs: services, their deployments, the logs of the
deployments, secrets, and resources that are cached until they are handed over to the service that
records them.

- `src/` is the verified library. Commands (`command.rs`) and queries (`query.rs`) each give an SQL
  statement and a meaning on tables (`tables.rs`), and are carried out on tables in memory
  (`persistence.rs`). Work that takes several turns with the database or with another service is a
  sequence of verified steps (`lookup.rs`, `recorder.rs`, `resources.rs`, `address.rs`). Laws that
  relate the operations are in `laws/`.
- `app/` drives the same commands, queries and steps against an SQLite database and a gRPC channel.
- `tests/` runs the library; `tests/sqlite.rs` holds the statements against the tables in memory on
  a real database.

The schema of the database is not part of this project: `app/` takes the migrations as an argument.
`INSERT OR REPLACE` of a secret relies on a schema in which a service and a key identify a secret.
