# kokoro_chat

The core of a desktop character-chat application, written in Verus: the rules that decide
what is stored, what is sent to a language model, how its replies and streams are read, how
plugins and their tools are found, and when the character speaks on its own. Each public
function carries a contract over plain mathematical models, and the properties that relate
several functions are stated and proved as public proof functions (`lemma_*`).

## Layout

- `src/` – the verified library
  - `db/` – schema migrations and the rules of the repositories (stored roles, size limits,
    generated statements)
  - `llm/` – endpoints and API strategy, request bodies, reply parsing, streaming state
    machines for the three wire formats, `<think>` tag handling
  - `plugin/` – the plugin registry and tool routing, and the built-in plugins (calculator,
    file operations with directory permissions, web search with domain filtering, knowledge
    lookup, user-defined HTTP and command-line tools)
  - `memory/` – conversation compression into long-term memories
  - `spontaneous/` – the state machine that decides when the character speaks unprompted
  - `models/` – the data types shared by the modules
- `tests/` – tests of the library on concrete values
- `app/` – the unverified shell: database access, HTTP, files, timers, serde shapes of the
  wire formats, and the loops that drive the library's state machines
