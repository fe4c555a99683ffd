# az

A local-first personal memory: utterances (L0) are segmented into thematic
blocks (L1) by a local language model, typed facts (L2) are drafted from the
blocks and validated by the user, and links (L3) are derived from validated
facts. Sensitive items never reach the model in a connected session.

## Layout

- `src/` — the verified library (Verus). It holds the decisions: session
  modes and the sensitivity filter, key derivation (Argon2id) and the
  SQLCipher key pragma, schema migrations, the prompts sent to the model and
  how its answers become blocks, fact drafts and derived links, the Markdown
  export, and the small text utilities of the tools. Every public function
  carries a contract; the laws that relate several functions are public
  proof functions (`lemma_*`).
- `app/` — the `az` command-line program around the library: SQLite
  storage, HTTP to Ollama, terminal input, files, JSON (de)serialisation, and
  the floating-point parts (embeddings similarity, audio activity detection).
- `tests/` — tests of the library, run with the real outside crates.
