# hyperion

A history indexer and query service for Antelope chains. The library under
`src/` is verified with Verus; `app/` is the program around it (sockets, HTTP,
settings, serialisation).

- `src/antelope/`: names, assets, keys, times, the byte format and its reader,
  ABIs and the decoder that turns binary data into JSON by an ABI
- `src/ship/`: the state-history protocol: requests, results, block headers,
  transaction traces, table deltas, and what to do with each frame
- `src/indexing/`: from a decoded block to documents, batches and the resume
  checkpoint
- `src/api/`: the queries behind each endpoint and the replies made from what
  is found
- `src/chain.rs`, `src/elastic.rs`, `src/config.rs`: what is asked of a node
  and of Elasticsearch, and the settings
- `src/foreign.rs`: the calls into other crates; their contracts are trusted,
  everything else is proved

Statements about several functions at once are public proof functions whose
names start with `law_`; each stands in the module that it speaks of.

The tests under `tests/` run the library on concrete values.
