# blockchain

A peer of a small account-based ledger network, written in Verus.

- `src/` is the verified library: the exchanged values and the account
  ledger (`structures`), keys, digests, signatures and hexadecimal text
  (`crypto`, over the `rsa`, `sha2` and `hex` crates), the node and its
  message handler (`blockchain`), duplicate suppression and message
  construction for flooding (`network`), and the console commands
  (`frontend`).
- `app/` is the program around it: the TCP connections, the listener and
  console threads, the main loop, printing, and the serde copies of the
  message types that go over the wire with bincode.
- `tests/` runs the library on concrete values.
