# liquidity_delivery

The off-chain side of the M0 liquidity delivery network: a solver that
watches the limit-order books on EVM and Solana chains, decides which
orders it fills and how much at a time, reserves inventory for them and
reports their fills; and a quoter that tracks the opened orders, answers
quote requests and builds the transactions that open new orders.

The functions of the library under `src/` carry contracts that Verus
proves, except a few small wrappers around outside calls
(hexadecimal and base58 codecs, Keccak-256 and SHA-256, EVM address and key
parsing and checksumming, lower-casing, and the three calls that read the
system clock), whose contracts are trusted and say what the called function
does.

- `bytes`, `text`, `hashing`, `table`: byte and text encodings (big- and
  little-endian integers, hexadecimal, base58, decimal), digests, and keyed
  tables over vectors.
- `order_book`: the order record and its id (the Keccak-256 digest of its
  encoding).
- `solver`: configuration, assets, the event types, the order store, the
  order processor (fee check, clipping, quotes), the inventory (holds,
  partial holds, rebalancing swaps, reloads), the order timer, the writers'
  fill plans, the decoding of chain events (EVM logs in `evm_logs`,
  Solana program events in `program_events`) and the log poller.
- `quoter`: order ids, the tracked-order store, the decoding of Solana order
  accounts and events, transaction building, the HTTP API's answers and the
  quote relay.
- `substreams`: the order-book substreams modules' block mappings for
  Solana and EVM blocks, from the decoded events of a block to its records.
- `emitted_events`: the Solana program events the indexing modules read
  from a block's inner instructions, and those modules' block mappings
  from raw transactions.
- `program_data`: the program-data module's records.
- `contract_events`: the EVM order-book module's records of every decoded
  log of the order book, sorted by kind.

`tests/` exercises the library. `app/` is a thin runner for the solver's
components on an event bus; it has no chain, HTTP or quote-stream clients,
so it reports the transactions and reloads it would make instead of making
them, and there is no quoter program.
