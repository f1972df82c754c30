# dsh_lite

A lightweight agent for network element devices, with its decisions verified in
[Verus](https://github.com/verus-lang/verus).

The agent takes a request, asks a model that speaks the OpenAI chat protocol, runs the tools that the
model asks for, and goes on until the turn is done. A skill says how: as a plan (the model decides),
as a todo list (the model is led step by step), or as a workflow (the steps are fixed, and the model
only judges).

## Layout

- `src/` is the library. Everything in it is verified. It holds what the agent decides and computes
  and touches nothing outside of memory: where something has to be done outside, a function says what
  (an action, a request, a command), and another takes in what came of it.
- `app/` is the program around it: the command line, the HTTP server and client, files, processes and
  SSH.
- `tests/` runs the library.

The main modules of the library:

| module | what it states |
|---|---|
| `session`, `session_manager` | the log of a conversation, what the model sees of it, and which logs are held in memory |
| `agent`, `hooks`, `strategies`, `dispatcher` | how a turn runs, step by step |
| `compaction` | how a long conversation is made shorter |
| `prompt`, `llm` | what is asked of the model, and how its answer is put together |
| `tools`, `policy`, `subagent`, `read_image` | what the tools are, who may call them, what they answer |
| `skill`, `skill_creator`, `workflow`, `expr` | skill files: reading, checking, writing, and the conditions of their steps |
| `router`, `commands`, `server`, `cli` | which skill, command or route a request means |
| `memory` | the long-term memory, which is bounded and forgets what was used longest ago |
| `image_preproc`, `base64` | pictures made small enough for a model |
| `text`, `json`, `yaml`, `sorting`, `textmap` | what the others are built on |

## Reading the contracts

Each type has a view (`SessionLog` has `SessionLogV`), and each function says by its `ensures` what it
does to the views. What holds of several functions together is stated in public proof functions whose
names begin with `law_`.

Calls into other crates and into parts of the standard library that have no specification stand in
small functions marked `external_body`, and in a few `assume_specification` items. Their doc comments
name the outside function and say what is taken for granted of it.
