# pallet-swallower

A game of gene-chain creatures ("swallowers") for a Substrate runtime, written
in Verus. Players mint swallowers for the game's asset, rename and burn them,
challenge each other's swallowers for genes, shelter in a paid safe zone and
claim rewards for staying in the battle zone.

## Layout

- `src/table.rs` — a key-value table over a vector, viewed as a `Map`.
- `src/types.rs` — the swallower and its battle rule, the protection and
  reward records, the fee configuration and payments.
- `src/hashing.rs` — the two digests the game takes from Substrate's hashing
  (the genes of a new swallower, the key of a swallower).
- `src/pallet.rs` — the storage, its mathematical view (including the log of
  the transfers the game had the runtime make), and every call with its
  contract. The runtime (block number, randomness, assets) is reached through
  the `Config` trait; each call that reads it has a `_with` form that takes
  what the runtime reported and has an exact contract. A call that fails
  makes no transfer: every check comes before the payment, and a battle
  whose fee is refused is undone.
- `src/battle.rs` — how a battle settles, and the proof that genes only
  change hands or are lost two by two in draws.
- `src/laws.rs`, `src/accounting.rs` — properties that span calls: the safe
  zone, minting and burning, the reward cooldown, distinct names, and the
  counters and owner lists that every call keeps right.
- `tests/` — scenarios on a test runtime.
- `app/` — the glue to a FRAME runtime: a `Config` over `frame_system`,
  fungible assets and a randomness source, FRAME origins and errors, and
  SCALE-encodable copies of the game's values.
