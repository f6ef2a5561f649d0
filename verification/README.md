# socrates_core

The core of a local AI coding assistant: routing prompts to models and
providers, staged (Socratic and systematic) analysis, a document store with
keyword retrieval and a query cache, chat history, token budgeting for the
prompt context, health monitoring with retries for the services it talks to,
stream decoding, an operation queue with memory accounting, a tool-server
registry, and the editor logic of its language server.

The library under `src/` is written in Verus: every function carries a
contract, and the contracts and the laws stated as proof functions (for
example, that a stored document is found again, that query results come best
first, that a check keeps the health counters consistent) are checked by the
verifier.

- `src/` — the verified library, one module per concern (`docstore`,
  `query_cache`, `health`, `history`, `context`, `analysis`, `editor`, ...).
- `tests/` — tests of the library on concrete values.
- `app/` — the command line program around it: HTTP calls to the model
  server, the search service and the hosted APIs, the language server
  plumbing, file watching, tool-server processes, and the few scores that are
  floating point numbers.
