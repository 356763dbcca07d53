# invariant_clamm

The state and bookkeeping of a concentrated-liquidity market maker, written
in Verus and proved against its contracts.

- `uint`: 256- and 512-bit unsigned integers (arithmetic through
  `primitive-types`), with their values as mathematical integers.
- `decimal`, `decimal_ops`: fixed-point decimal types (percentages, square
  roots of prices, fee growth, liquidity, token amounts, ...) and the
  products and quotients they share, rounded down or up.
- `address`, `errors`: account and contract addresses with their order, and
  the error types with their codes.
- `storage`: fee tiers, pool keys, pools, ticks, positions and the tick
  bitmap; the pool's fee accounting, liquidity updates and tick crossing.
  The price formulas (amount deltas, fee growth inside a range, the tick at
  a price, ...) are handed in as functions; every result is proved for
  whatever they return.
- `collections`: the stores of fee tiers, pools, ticks and each account's
  positions, each modelled as a map or a sequence.
- `erc20`: a fungible token whose balances always add up to its supply.
- `consts`, `events`: the global limits and bitmap arithmetic for clients,
  and the events of positions and swaps.

`tests/` holds the tests. Each `law_` proof function states a property of
the library as a whole.
