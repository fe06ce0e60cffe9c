# mesh-agents

A2A agents for MCP clients, through mesh-llm. Agents live in directories of their
own; clients discover them through an MCP server, read their Agent Cards, and hand
them tasks. Nodes of a mesh advertise agents to each other and run tasks for each
other.

The rules behind this are a Verus library: each function states in its contract what
it returns, and Verus proves it. The program around it reads and writes files, talks
to processes and to the mesh, and asks the library what to do.

## Layout

`src/` is the library.

| Module | What it holds |
|---|---|
| `text`, `order`, `pairs`, `paths` | Texts, their order, environment maps, and paths as `std::path` takes them. |
| `json` | JSON values of `serde_json`, and the calls that build and read them. |
| `wire` | Tasks, cards and JSON-RPC messages, read and written by the `a2a` crate. |
| `config`, `card`, `validation`, `registry` | An agent's configuration and card, the rules for both, and the agents of a directory. |
| `templates`, `acp` | Substitutions in commands, and how a task starts an ACP harness. |
| `artifacts` | What a harness leaves, and the tasks that executors end. |
| `task_store`, `service` | Stored tasks: rows, recovery after a restart, lists and pages. |
| `gates` | How many tasks of an agent run, and which wait. |
| `mesh`, `stream`, `plugin` | Agents and tasks of other nodes, event streams, and the decisions of the mesh plugin. |
| `tools` | The tools that clients call, and what they are answered. |
| `authoring`, `codex`, `skills`, `locations` | The command line: new agents, reports, Codex setup, skills, and where files lie. |

`tests/` runs the library. `app/` is the program: the command line, the MCP server,
the SQLite task store, the ACP runner and the mesh plugin.

## What is proved

Contracts speak of mathematical values: texts are sequences of characters, JSON is a
tree, a task is a record of such values. The contracts, and the public proof functions
named `law_..`, state what holds across functions, such as:

- a stored task is read back as it was, where its messages and artifacts have the form
  that the `a2a` crate writes, its document is nested no deeper than `serde_json` reads,
  its fractions are read as they are written, and no object in it has the member name
  that `serde_json` keeps for itself; tasks that an executor ends, and tasks that a
  restart interrupts, have that form;
- after a restart no task is left running, and another restart changes nothing;
- the pages of a list hold every task once, in order, and all but the last are full;
- a completed task has a summary and findings, and both can be viewed;
- an answer from another node takes the place of the task that waited for it;
- at a gate no more tasks run and no more wait than may, and those that wait run in
  order;
- setting the managed block of a configuration again is the same as setting the later
  block alone;
- a new agent can be loaded, out of the text of its card file and the configuration
  that its configuration text spells;
- switching an agent on or off changes nothing else, where its directory or the paths
  in its configuration are absolute;
- every agent of a directory is found by its id.

What the outside crates compute is stated in the contracts of small functions marked
`external_body`, each with a comment that says what it claims of the call.
