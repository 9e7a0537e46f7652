# hanzo_sdk

Shared Hanzo infrastructure as a verified library: W3C decentralized identifiers (DIDs) and
the networks they live on, form encoding and `deepObject` query parameters for the REST
client, the file layout and SIM binding of key vaults, and AST code search with tree-sitter.

- `src/` is the library, verified with Verus. `grammar` states the DID syntax and proves that
  reading a DID text and rendering a DID undo each other; `did`, `did_laws` and `network`
  cover DIDs and networks; `client` and `deep_object` the REST helpers; `vault` the vaults;
  `search` the search decisions; `ast` parses sources with tree-sitter into plain nodes and
  builds the matches of an AST search from them; `text` the character-level helpers they share.
- `app/` holds what runs around it: serde forms, the asynchronous vault operations, the
  directory walk of the searcher and the client's error type.
- `tests/` runs the library on concrete values.
