# stellarspend

The decision logic of the StellarSpend Soroban contracts, written in Verus and proved
against its contracts.

- `src/` is the verified library. Each contract's state is a plain Rust value (accounts are
  numbers, symbols and strings are byte vectors) and each entry point is a method with
  `requires`/`ensures` over that state: fee arithmetic and the fee contract, fee escrow by
  cycle, the multi-currency wallet, merchant tagging, recurring payments and income streams,
  spending categories, shared budgets, multi-signature approvals and withdrawals, savings
  goals, rewards and rate limits.
- `tests/` exercises the library on concrete values.
- `app/` holds the Soroban contracts themselves: they load the state from contract storage,
  check authorisation, call the library, store the result, publish events and move tokens.
