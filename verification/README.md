# smart_send

Token distribution contracts for MultiversX, with their logic verified in Verus.

- `src/amount.rs` — unbounded token amounts (addition, subtraction, comparison, byte conversion).
- `src/data.rs` — addresses, token identifiers, payments, transfers, actions and errors.
- `src/collections.rs` — the stored collections: an address set that removes by swapping
  the last element into the gap, and a keyed map.
- `src/distribution.rs` — splitting one payment among receivers (refunding the rest) and
  handing out NFTs, with the conservation law.
- `src/smart_send/` — the contract restricted to its owner and allowed users.
- `src/smart_send_v2/` — the same, plus distributions saved for an executor and carried out
  in batches of 100.
- `src/remarkable_tools/` — the contract that sells contracts deployed from a source and
  hands their ownership to the buyer, plus open distribution endpoints.
- `app/` — the contracts as deployed: each endpoint reads the call from the chain, asks the
  library what to do, stores the new state and carries out the returned actions.

Every endpoint of the library is a function from the contract's state and the call's inputs
(caller, owner, payments, arguments) to a result: the new state, and the transfers and calls
to make, or the error the call fails with.
