# reflection_doc

Document, author and identity bookkeeping for a terminal editor of a shared plain-text
document, verified with Verus.

- `src/` is the verified library: identities (`identity`), document identifiers and their
  hex form (`document_id`, `id_file`), authors (`author`, `authors`), the CRDT-held text
  (`text`, `changes`), documents (`document`, `documents`), the service (`service`) and the
  editing front's key handling (`editor`). Ordered maps are `indexmap::IndexMap`s, the text
  lives in a `loro` document; both are reached through small trusted wrappers whose
  contracts are stated next to them.
- `tests/` exercises the library through its public API.
- `app/` is the terminal program: argument parsing, the terminal UI, file access, and the
  network node, performing what the library decides.
