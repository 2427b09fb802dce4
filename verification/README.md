# predictify_bets

Betting on prediction markets for a Soroban contract, verified with Verus.

Users place bets on the outcomes of a market, one by one or in batches, and may
cancel them until the market ends. A market that is resolved settles its bets; one
that is called off pays them back. Limits and caps bound what may be bet, and
events are published under topics that stay readable over upgrades.

## Layout

- `src/` is the library. Its operations work on a `Ledger`: the entries of one
  invocation, what the rest of the contract says about it, and the effects that
  only the host can perform (authorisation, transfers, lifetimes of entries,
  events), in the order in which it has to perform them. An operation that fails
  leaves the ledger as it was.
  - `types`, `error`, `ledger`, `table`, `math`: the data.
  - `host`: the maps, lists and short symbols of `soroban_sdk`, and all that is
    taken on trust of them.
  - `limits`, `validator`: what a bet has to satisfy.
  - `books`, `storage`, `funds`, `manager`: bets, bettors, statistics and transfers.
  - `placement`, `batch`, `cancellation`, `settlement`, `payout`: the life of a bet.
  - `analytics`: questions about the bets on a market.
  - `event_topics`: the registry of topics, their nonces and their renaming.
  - `bookkeeping`, `laws`, `topic_laws`: what holds of the library as a whole.
- `tests/` runs the library on concrete values, with the real host collections.
- `app/` connects the library to the host: it reads and writes entries and performs
  effects.

Amounts are in the base units of the token, fees in basis points. Symbols,
addresses and outcomes are numbers within an invocation; `app/` keeps track of what
each number stands for.
