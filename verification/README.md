# autofix

A terminal coding agent with local-first Ollama support, streamed answers, workspace tools
and approval controls, written as a library that is proved with Verus and a thin program
around it.

- `src/` is the library. Its functions carry contracts over mathematical models of their
  data. Left open are only what the clock says and how the title and the input share a
  screen that is too small for both. The laws that span functions stand beside them as
  proof functions whose names begin with `law_`.
- `app/` is the program: arguments, files, processes, the network and the terminal.
- `tests/` runs the library on concrete values.

| Module | What it holds |
| --- | --- |
| `config` | settings, how a config file is read over them and what they resolve to |
| `provider` | requests to providers, whole and streamed replies |
| `json` | JSON values as they are read and built |
| `tools` | the calls a model makes, what they may reach, approvals and reports |
| `search` | web search: the address that is asked and the results in the page |
| `agent` | the conversation, attachments and the rounds of answers and tools |
| `commands` | commands in line mode and on the full screen |
| `context`, `plan` | notes, skills and instructions that are told, and the plan |
| `sessions`, `workers` | records that outlive a process |
| `worktrees` | where worktrees lie and what git is asked about them |
| `completion` | completion of commands, arguments, paths and skills |
| `tui` | the full-screen interface: keys, mouse, scrolling, layout, transcript |
| `ui`, `thinking` | what line mode prints: Markdown, notices, thinking |
| `text`, `paths`, `sorting` | texts as sequences of characters |

What the library takes on trust is marked in the source: calls into `serde_json`, `reqwest`
(its `Url`), `ratatui` (its layout) and a few functions of the standard library, each with a
comment that says what is claimed of it.

With `--provider anthropic` and no `--model`, the program takes the model that
`ANTHROPIC_MODEL` names.
