# inductor

The core of a terminal coding agent: what happens between a user, a model provider and
the tools of a workspace, with contracts that Verus proves.

`src/` is the verified library.

- `text`, `order`, `textmap`, `wildcard`, `json`: text, sorted lists, maps from text to
  text, patterns with stars, and JSON values.
- `tools`: the tools that a model can call, from paths that stay inside the workspace to
  edits, patches, searches and commands in the background.
- `runtime`: a turn from the prompt to the last reply, how a tool call is approved and
  carried out, the risks of a call, the diffs that are shown, and the prompts.
- `provider`: the requests to three providers, how their streams are read, and how a turn
  with each of them goes, over HTTP or through a bridge process.
- `persistence`: records, the statements that store them and read them back, and migrations.
- `sandbox`, `terminal`, `naming`: how shell commands are confined, the screens of shells,
  and names for sessions.

Whatever waits for the outside is written as a state machine. A step takes what has
happened, and gives the events to tell and the next thing to do. Public proof functions
state what holds of the library as a whole.

`app/` carries the steps out: files, processes, HTTP, SQLite and pseudo terminals. `tests/`
runs the library, with a simulated disk and scripted providers where something outside is
needed.
