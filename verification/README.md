# dz-publisher-runtime

The decisions of a market-data publisher's runtime, in Rust, with contracts
proved by Verus.

A publisher reads a venue's upstream through the venue's own adapter and puts
what it says on multicast groups, one channel per feed and shard. This library
holds what its runtime decides. It opens no file and binds no socket: what has
to be done is handed out as values, and how it went is handed back in.

| Module | What it decides |
|---|---|
| `config` | what a configuration document may say, and what it resolves to |
| `command` | what a command line asks for |
| `registry`, `builtin` | which adapter a document names |
| `compose` | what is opened, for whom, and in which order |
| `run` | what a pass of the loop does, which connections are read, and which of them can end the process |
| `publisher`, `shard`, `pipeline` | which feed carries which event, on which channel, and when |
| `rotation` | which instrument is snapshotted next, and when |
| `guard` | when the process has to end |
| `observer`, `report` | what is counted, and what an operator is told |
| `replay` | a recording in place of a connection |
| `clock`, `duration`, `address`, `text`, `table`, `event`, `instrument`, `error` | the values the others speak of |

What holds of the library as a whole is stated in public proof functions beside
the functions they speak of; those on a resolved configuration are in
`config::laws` and those on a publisher in `publisher::laws`.

`app/` is the process around the library: the configuration file's syntax, the
async runtime, signals and sockets, over the traits in `app/services.rs`.
`tests/` runs the library on concrete values.
