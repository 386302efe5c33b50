# ck_lightning_client

Client library and command-line prompt for the ckLightning canister, which swaps
between Lightning BTC and ckBTC and keeps a liquidity pool.

The library (`src/`) is written in Verus and verified:

- `bolt11` — BOLT11 invoices as decoded by `lightning-invoice`; every value of
  the type decodes again from its own string.
- `invoice`, `natural` — the Candid records the canister exchanges and
  Candid's unbounded `nat`.
- `candid_invoice` — conversion between an invoice and its Candid form, with
  the check that the Candid fields agree with the invoice, and the laws that
  relate the two directions.
- `command` — what a line typed at the prompt asks for, and which identity
  file a session uses.
- `handler` — the message handler behind the `rpc` and `p2p` commands.
- `codec`, `text` — hex and principal decoding, decimal numbers, whitespace.
- `ic_params` — canister ids, identity files and fees.

`app/` holds the prompt itself and the canister calls (`main.rs`,
`commands/`, `client.rs`); it needs the relay and canister crates
(`ic-lightning-relay`, `cklightning`, `ldk-sample`), which are checked out next
to the canister and relay repositories rather than published.
