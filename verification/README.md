# ezgraph

The logic of EzGraph, a desktop tool that turns `.md` / `.txt` documents into
draw.io diagrams with the help of an LLM, written in Verus with its behaviour
stated in contracts and proved.

- `src/text.rs`: Unicode white-space trimming, repeated prefix/suffix
  stripping and substring search over `Seq<char>`, with laws on them.
- `src/file_parser.rs`: choosing a file's text encoding (UTF-8, GBK, Big5,
  lossy UTF-8), flattening Markdown to plain text, finding a file's name and
  extension in its path, and the import decision (size limit, file type).
- `src/llm/`: chat messages, the provider clients (OpenAI-compatible,
  Anthropic, Ollama), the HTTP request each one sends, what to read of a
  reply given its status, the reading of replies and error statuses, and the
  draw.io prompt and reply cleaning.
- `src/commands.rs`: the diagram command as two steps around the chat: the
  client and messages a request asks for, and the answer made of the reply.
- `app/`: the unverified shell: file and network I/O, JSON, and the commands
  the front end invokes.
