# hybridtrade

The core logic of the HybridTrade agent backend and its command-line client,
written in Verus. The functions of `src/` carry contracts and are proved
against them; the one hand-written std trait impl (`FromStr` for
`AgentRole`, which forwards to the verified `AgentRole::parse`) has none.

- `src/` — the verified library. Agents and roles, chat histories and their
  compaction, prompts and skills, the tool runtime (tool arguments, the JSON
  values that tools exchange, the registry of tools, MCP tools, the file,
  market and research tools and what the learned-skill tool reports), spawned
  teams (request validation, subagent prompts, assembling a team's result),
  the provider protocols (strict tool schemas,
  request and reply handling, retries and fallbacks), schedules and their
  storage rows, the research pipeline's analysis and reports, and the CLI's
  rendering and REPL logic, and the workspace confinement of the file tools.
- `tests/` — tests that run the compiled library.
- `app/` — a small command-line front end that reads configuration files,
  directories and JSON from disk, hands their contents to the library and
  prints the results.

The library calls `serde_json`, `cron` and `chrono` (and `String::push`)
through a few trusted wrappers whose contracts state what those crates and
std document; everything else is proved.
