# fangorn

The verified core of a network for threshold encryption.

A file is encrypted to a committee of nodes, under an intent that says who may open it. To open
it, a client puts a request into a pool on a chain. Each node verifies the witness of the request
against the intent, decrypts its part of the file, delivers it to the client, and attests to that
in the pool.

`src/` holds what is decided and computed on the way, with contracts that Verus proves:

- `contract`: the contracts on the chains, namely a token, a registry of predicates, and two
  request pools. Each holds its storage as plain values.
- `pool`, `backend`, `gadget`, `message`: the calls of those contracts, the reading of their
  replies, and the messages between nodes.
- `crypto`: key vaults, and the collection of a decryption by a client.
- `node`: the start of a node, the upkeep of its state, and its work on a request.
- `bytes`, `text`, `scale`, `hexadecimal`, `uint256`, `table`, `hashing`: what these are made of.

Files named `*_laws.rs` state what holds over several calls.

`tests/` runs the library. `app/` holds the storage of the contracts on their chains and the calls
to vault, chain, network and document, around the library.
