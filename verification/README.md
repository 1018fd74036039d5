# tron-node

The logic of a TRON full node, verified with Verus, and a thin program around
it.

- `src/` is the library. Each module holds the rules of one part of the node and
  states them as contracts: configuration and command line (`config`, `cli`),
  block references and admission (`ref_block`, `mempool_validator`), peers
  (`peer_registry`, `peer_state`, `node_persist`, `node_statistics`,
  `resilience`, `relay`, `inbound`, `p2p_rate_limiter`, `fetch_block`), witnesses
  (`backup`, `pbft_runtime`), what an applied block leaves behind (`index_hook`,
  `firehose`, `durability`), archives and maintenance (`replay`, `admin`,
  `audit`, `account_report`, `head_probe`, `dump_state`), events (`event_loader`, `abi_event_decoder`), and what
  operators see (`explore`, `mempool_explore`, `panel`, `logfmt`, `diag`,
  `diag_report`, `reports`). Below them stand small building blocks: `text`,
  `bytes`, `chain`, `table`, `key_counts`, `address_set`, `order`, and
  `binary64`, whole-number arithmetic that rounds as IEEE 754 doubles do.
- Laws that relate several functions are public proof functions next to them,
  such as `replay::archives_read_back` or `firehose::log_has_no_hole`.
- What the library believes of other crates and of the standard library without
  proof is marked `external_body` or `assume_specification`, in `text`, `clock`
  and `event_loader`.
- `app/` is the program: files, sockets, the terminal, serialisation.
- `tests/` runs the library on concrete values.
