# kid-agentic-coding

Task-scoped agent sessions, wired together as workflows: one focused context
per unit of work, and a hard boundary between one and the next.

The library holds the rules of the assistant, each of them stated as a contract
and proved with Verus:

- `session`, `bridge`, `prompt`, `acp`: what a session does with prompts, with
  the agent's messages and with the messages of its helper servers.
- `workflow`, `definition`: which session is active, when a fix session opens
  and closes, and which actions it may take.
- `wire`, `json`: the lines that processes exchange over sockets.
- `mcp`, `tools`: the helper servers of a session and the tools they offer.
- `commit`: the rules of a commit message.
- `chat_log`, `timeline`, `bubble_layout`, `timeline_layout`, `layout`, `ui`,
  `markdown`: the log of a session, and how it is laid out, navigated and drawn.
- `sandbox`, `logging`, `log_buffer`: the steps into the sandbox, log levels and
  the log lines that are kept.
- `lorem`: a stand-in agent.
- `text`: characters, words, lines and numbers.

What it takes from outside crates is declared where it is used, together with
what is relied on.

`app/` holds the programs: the terminal UI, the helper servers, the sandbox,
one-shot prompts and the stand-in agent. It does the input and output, and
leaves the decisions to the library.
