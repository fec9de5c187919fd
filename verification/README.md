# companion_hivemind

The verified core of the Hivemind companion backend, written in Verus.

- `src/` is the library. Its functions carry contracts that Verus proves, except the two wrappers in `ids` around the `uuid` crate (`parse_uuid`, `uuid_to_string`), whose contracts are trusted:
  - `config`: settings, their defaults and the normalised schema name
  - `text`: whitespace, trimming, splitting text into words and joining words
  - `ids`: UUID values and their text form (through the `uuid` crate)
  - `models`: stored records
  - `auth`, `auth_laws`: the registration and sign-in flows as a state machine, and laws about whole runs
  - `middleware`: authenticating requests from their `Authorization` header
  - `knowledge`: cutting transcripts into chunks, the rows stored for them, and assembling search results
  - `vexa`: the endpoints of the meeting-bot service
- `app/` is the server around the library: configuration loading, the database, HTTP routing, the vector store, the embedder, and the flows' storage calls.
- `tests/` runs the library on concrete inputs.
