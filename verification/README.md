# aivyx

The decision-making core of a personal assistant, verified with Verus.

- `src/text.rs`, `src/json.rs`: strings as character sequences and JSON values,
  with the exact text each operation yields.
- `src/outcome.rs`, `src/planner.rs`: tool outcomes, token usage, steps of a
  turn and the tool registry.
- `src/llm_planner/`: the planner that turns a conversation into requests to a
  language model and its replies into steps: history, pruning, prompt-cache
  slots, recovery of misspelt tool names, validation and repair of tool input,
  costs.
- `src/skill_proposer/`: the judge that decides whether a turn is worth
  remembering: its prompts and the reading of its answers.
- `src/tools/`: the git, shell, routing and skill tools. Each says which
  command to run and what to make of what came back.
- `src/discord/`: channels and sessions as state machines.

`app/` connects the library to the outside world: model providers, child
processes, the file system and Discord. It performs what the library asks for
and hands the results back.

Contracts are stated over views of the data. Public proof functions named
`law_…` state what holds of several operations together.
