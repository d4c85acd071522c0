# agent_tutorial

A coding agent for the terminal, written in Verus. The user sets a task; the
language model (DeepSeek, over the protocol of OpenAI's chat completions) answers
or asks for tools; the agent runs the tools, hands their results back, and asks
again until the language model ends its turn.

## Layout

- `src/` is the library, all of it verified. It works on plain values.
  - `agent/`: a run as a state machine (`agent_loop`), the agent between its runs,
    the stream of events, and what holds of every run (`run`).
  - `tool/`: which shell commands are refused (`bash`) and what holds of that
    (`compound`, `words`), which files may
    be read and written (`path`, `read_file`, `write_file`), and the registry.
  - `ai/`: messages, requests, streamed replies and token counts.
  - `provider/`: providers by their kind.
  - `json`, `text`, `registry`: JSON values, text and named values.
  - `cli`, `logger`: the terminal and the settings of the log.
- `app/` is the program around it: the network, files, child processes and tasks.
- `tests/` runs the library.

## Trust

The library calls `serde_json` and a few functions of the standard library through
declarations whose contracts are believed. They stand in `src/json.rs` and
`src/text.rs`, each with what is claimed and what is not.

## Running

Set `DEEPSEEK_API_KEY` in `.env`. The level of the log is taken from `LOG_LEVEL`,
and the log goes to the console and to `./logs`.
