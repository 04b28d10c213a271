# transactions_lib

The ledger of a multi-currency wallet (bitcoin, ether and an ERC-20 token),
verified with Verus.

Every wallet has a credit (`Cr`) account, which tracks what the wallet owes
its user, and a debit (`Dr`) account at the same blockchain address, which
tracks what the wallet holds there. Every transaction moves a value from one
account (`dr_account_id`) to another (`cr_account_id`); the balance of a
credit account is what it was credited minus what it was debited, and the
other way round for a debit account.

## Layout

- `src/` — the verified library.
  - `models`, `error`: the values and failures the services exchange.
  - `repos`: the stored state (users, accounts, the ledger, and the records
    kept about blockchain transactions) and its queries.
  - `ledger`: properties of the double-entry ledger.
  - `classifier`: validation of transfer requests, daily limits, and what
    kind of transfer a request is.
  - `transactions`, `withdrawal`: booking internal transfers, exchanges and
    withdrawals; a withdrawal is a staged process whose blockchain sends the
    caller performs.
  - `rabbit`, `blockchain_tx`, `confirmations`: handling the transactions
    that the blockchain gateway reports (deposits, confirmations of
    withdrawals, token approvals), each at most once.
  - `blockchain`: decisions around sending transfers (sender, nonce, ids).
  - `converter`, `queries`: presenting groups of transactions to users.
  - `accounts`, `users`, `auth`, `system`, `fee`, `metrics`: the other services.
- `tests/` — tests of the library.
- `app/` — the service around the library: message parsing, the outside
  services (gateway, key store, exchange, fees), and the conversions that
  work in floating point.
