# forge-create

`forge create` deploys a contract: it compiles it, builds the transaction that creates it, asks a
node for what the transaction still lacks, sends it, and has the contract's source verified.

- `src/` holds what the command decides, with contracts that Verus proves. Nothing in it talks to a
  node, a compiler, a wallet or a file: it takes their answers as arguments and says what is needed
  next.
- `app/` is the command itself, around that library: the command line, the configuration, the
  compilers, the node, the wallet and the verification service.
- `tests/` runs the library on concrete values, with the alloy crates linked.

## The library

| Module | What it holds |
| --- | --- |
| `args` | The command's arguments, and the parsing of constructor arguments. |
| `run` | The command from its arguments up to a deployment. |
| `deploy`, `deploy_zk` | A deployment, from the transaction's first fields to the deployed contract, on EVM chains and on ZKsync. |
| `factory` | The transactions that create contracts, and what comes of sending them. |
| `factory_deps` | The bytecodes that a ZKsync deployment has to make known. |
| `linking` | The refusal of bytecode that lacks library addresses. |
| `verify` | The requests to verify a contract's source. |
| `abi`, `tx`, `primitives` | Constructor inputs and values, transaction requests, addresses, hashes and numbers. |
| `exponent` | Where reading an argument comes to a number whose exponent is too large for a machine word. |
| `text`, `distinct`, `results` | Colons, lines and decimal numbers, lists without repetition, results in a row. |

What alloy computes stays alloy's: resolving Solidity types, reading values from text, ABI
encoding, hexadecimal and checksummed texts, transactions in JSON, the list of legacy chains, and
the call that creates a contract on ZKsync. Each of these is called in one function that is not verified, whose contract
says what the rest relies on.
