# huff_utils

Utilities shared by the Huff compiler, written in Verus. The functions under `src/` carry
contracts that Verus proves, except the small wrappers around outside calls, whose
contracts are trusted as stated (each names the call it makes and what it claims).

- `src/` — the verified library: hex and byte helpers, EVM opcodes, ABI types and their
  Solidity spellings, Solidity interface generation, source files and spans, remappings
  (from `foundry.toml` and `remappings.txt` contents), storage-pointer derivation, error
  messages and reports, the lexer (its character cursor and tokenizer), and reading ABI
  values from text.
  Calls into `tiny-keccak`, `ethers-core`, `toml`, `uuid` and std that Verus cannot read stand
  behind small wrappers whose contracts say what the called code does.
- `app/` — plain Rust around the library: reading configuration files and directories,
  writing artifacts and interfaces, serde copies of the artifact types, and writing
  reports before exiting.
- `tests/` — tests of the library on concrete values.
