# faber_aeternus

The verified core of a terminal coding agent, written in Verus.

- `src/` is the library, every function proved against its contract:
  - `tools::parser` — streaming extraction of `<tool_call name="…">{json}</tool_call>`
    tags from model output arriving in chunks, with the law that the chunking of a
    stream changes no tool call, and no text once the text still held back is counted;
  - `brain::fold` — folding of source files (bodies of items that the prompt does
    not mention are replaced by a marker) over tree-sitter syntax trees, with a
    bounded cache of folds (`lru`);
  - `brain::specialists`, `brain::coordinator` — the agents' decisions: the Coder
    keeps only `edit_file` calls, the reviewing agent rejects edits whose Rust does not parse
    cleanly, and a rejection drops every tool call of the step;
  - `tools::registry`, `sandbox` — the tools with their risk levels and what a call
    comes to, and the command lines and outcomes of sandboxed runs;
  - `state`, `config`, `cli`, `llm`, `tui` — session state with a bounded history,
    configuration, the request and event-stream formats of the chat API, and the key
    that ends a session;
  - `json`, `syntax`, `cache`, `words`, `utf8`, `text` — the calls into serde_json,
    tree-sitter, lru and std, each behind a small trusted wrapper whose contract
    states what the outside code does, and the text primitives built on them.
- `app/` is the program around it: the command line, file and network I/O, the
  async agents, the background indexer (tantivy), git, and the terminal interface.
- `tests/` exercise the library on concrete inputs.
