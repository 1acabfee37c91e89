# traits

The logic behind a set of runtime "traits" (small JSON-in, JSON-out
functions): canvas game collections, game revisions, the voice transcript,
VFS requests, image and chat requests to model APIs.

- `src/` is the library, verified with Verus. Each module states what its
  functions return over plain values (`Seq<char>`, sequences of entries, a
  view of the games collection) and proves it; the laws that span several
  calls (read after write on the canvas, the bounded revision list, glob and
  listing properties, ...) are public proof functions next to the code.
- The stored documents (the games collection, the revision index and
  snapshots, the voice transcript) are read from their text and written back
  by `src/store.rs`: reading goes through serde_json's parser (a trusted
  item), writing is verified code that produces serde_json's compact form.
- `app/` is the glue that moves text between the runtime (virtual
  filesystem, trait dispatch, clock, secrets, settings) and the library
  through an installed `Platform`, builds the JSON replies, and renders the
  HTML pages.
- `tests/` runs the library on concrete values.
