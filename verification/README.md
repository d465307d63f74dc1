# iela

An indexer for the Inscription Protocol on Ethereum-compatible chains. It
walks blocks, reads transaction inputs framed as `data:,{...}`, records
`deploy` and `mint` inscriptions in PostgreSQL and serves them over HTTP.

- `src/` is the verified library (Verus): inscription framing, hex and
  decimal text, the rows written for deployments and mints, the minting
  rules and the block synchronisation cursor.
- `app/` is the program around it: command line, database access, the HTTP
  API, JSON decoding of inscriptions and the loop that talks to the node.
- `tests/` exercises the library on concrete values.
