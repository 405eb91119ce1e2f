# graphon

Graphon sorts, cleans up and indexes a Gmail mailbox: unread mail is checked
for spam and promotions, labelled by importance and stored; retention rules
trash old mail; labels are analysed, cleaned up and consolidated; stored mail
is cut into overlapping chunks for retrieval-augmented generation.

## Layout

- `src/` is the library, verified with Verus. Each module states its
  behaviour in `requires`/`ensures` contracts over mathematical models
  (`Seq`, `Map`, views of the data types), and the properties that span
  several calls as public proof functions (`lemma_*`).
  - `entities`, `error`: the domain model and the error type.
  - `text`: character-level text operations (case-insensitive comparison,
    substring search, splitting, trimming).
  - `label_organizer`: label categories, cleanup, consolidation, deletion by name.
  - `sort_pipeline`: the mail sorting run as a state machine; the caller
    performs each action it asks for and hands back the outcome.
  - `classifier`: keyword rules, verdicts and the language-model requests.
  - `gmail_client`: query encoding, base64url bodies, message parts and
    headers, label-id resolution (another state machine).
  - `rag_indexer`: chunking and re-indexing.
  - `qdrant`: point ids, search payloads, embedding endpoints and ordering.
  - `database`: the in-memory store.
  - `server`: command-line modes, counters and the OAuth sign-in replies.
- `app/` is the program around it: the HTTP service, the command line, and
  the Gmail, language-model, PostgreSQL and Qdrant clients. It performs the
  I/O and hands the library plain values.
- `tests/` runs the library on concrete values.
