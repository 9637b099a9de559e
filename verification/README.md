# pinocchio_amm

A constant-product AMM for Solana, written as a Verus-verified library with a
thin Solana program around it.

## Layout

- `src/` — the verified library.
  - `curve.rs` — the constant-product swap and the integer square root, with
    the laws that a swap never lowers the pool's product and that a fee within
    the cap never exceeds the deposit.
  - `state.rs` — the 110-byte config account: its field view, byte layout,
    getters and setters, and the round-trip laws of the layout.
  - `batch.rs` — token operations and the wire format of a batched token
    program call (`0xFF`, then `[3] [9] [disc] [amount LE]` per operation).
  - `pda.rs` — program derived addresses (config, LP mint, vaults), through
    the runtime's own derivation.
  - `instructions/` — each instruction's account and data checks and what it
    decides: `initialize`, `swap`, `withdraw`, and the authority's
    `config_actions` (update authority, update fee, toggle lock, remove
    authority), with the laws that tie them together.
- `app/` — the Solana program: entrypoint, reading accounts and the clock,
  writing the config account back, and the cross-program invocations.
- `tests/` — scenarios of whole pools and unit tests of the library.

## Deposit

Instruction tag 1 is reserved for a proportional deposit that mints LP
tokens. Its processor's source is not available to this crate, so neither the
library nor the program implements it: the program answers tag 1 with
`InvalidInstructionData`.

## Config account (110 bytes)

```
[0]        discriminator (1)
[1..9]     seed (u64 LE)
[9..41]    authority
[41..73]   mint_x
[73..105]  mint_y
[105..107] fee (u16 LE, bps, at most 10,000)
[107]      locked
[108]      lp_bump
[109]      bump
```
