# melminter

A minter for Melmint: it builds proofs of sequential work, claims their rewards in ergs, converts
the ergs to mels and pays half of the profits out. What it decides is a library that Verus proves
correct; what it does is ordinary Rust around it.

- `src/` is the library.
  - `chain`, `encoding`, `keys`: the chain's vocabulary, the bytes that claims and coins are written
    in, the secret key and the puzzles.
  - `wallet`, `tx`, `state`: the wallet, the transactions that it prepares, and the minter's state
    with the transactions that it asks for.
  - `errand`: from a request to a transaction that is accepted, and confirmed where that matters.
  - `sync`, `sync_laws`: keeping the wallet in step with the chain.
  - `batch`: building a batch of proofs, one for each seed coin.
  - `reward`, `speed`: what a proof is paid, what ergs are worth, how fast the machine is.
  - `worker`, `worker_laws`: the rounds of minting.
  - `refusal`: what the wallet says where money is short.
  - `retry`, `cmdopts`: trying again, and the command line's options.
- `app/` is the program: command line, display, network, files and threads.
- `tests/` runs the library on concrete values.

`errand`, `sync`, `batch` and `worker` decide and do not act. Each is told what happened and answers
with what to do next; `app/` does it.

The wallet, the transactions and the hashes come from `melwallet`, `melstructs`, `melstf`, `melvm`,
`stdcode` and `tmelcrypt`. Each call into them is a small function marked
`#[verifier::external_body]`, whose contract says what is relied on.
