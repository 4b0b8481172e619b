# StreamPay streams

A payment-stream contract whose logic is verified with Verus. A stream locks a
token amount in escrow and releases it linearly to a recipient; it can be drafted,
started, paused, resumed, amended, withdrawn from, settled and cancelled, and it
can be shared by several recipients.

- `src/` is the verified library. An entrypoint works on an `Env`: the ledger
  header, the storage rows that the call may touch, the authorisations that it
  demands, and the calls that it asks of the ledger host.
- `tests/` runs the library on concrete values.
- `app/` is the contract as the ledger host runs it: it reads rows, hands them to
  the library, and carries out what the library decided.

## What is proved

Every entrypoint states, for every input, whether it is refused and with which
error, and what the whole environment is afterwards. A refused call changes no row
and asks nothing of the host.

On top of that:

- accrual stays between what was released and what was escrowed, never falls as
  time passes, stands still during a pause and is complete at the end;
- an amendment takes back nothing that has vested, and cancelling after it gives
  the sender no more than cancelling before it;
- fee and net amount make up the amount that is withdrawn;
- every entrypoint keeps the rows in order: records under their own ids, amounts
  and fees within bounds, and for each sender the true number of live streams;
- every entrypoint pays out exactly what it takes off the escrow, and shared
  streams never more than that;
- used nonces are refused, migration is idempotent, pages of a list make up the
  list.

Nothing is assumed: the library calls no outside code.
