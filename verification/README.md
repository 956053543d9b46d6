# mcp_git

A read-only Git explorer for tool-calling clients: it lists connected
repositories, commit logs, diffs between revisions, commit details, branches,
tags, remotes, file contents at a revision, working-tree status and blame.

- `src/` is the verified library. Each module states its behaviour as
  contracts over `Seq`-based models and proves them:
  - `server`: choosing the repository a request names, and filling in a
    request's defaults;
  - `log`: collecting a commit log (limit and author filter) and a
    commit-message search, one commit at a time; one commit in detail;
  - `diff`: collecting the changed files of a tree diff;
  - `status`: reading `git status --porcelain=v1` output;
  - `blame`: reading `git blame --line-porcelain` output and grouping
    consecutive lines by commit;
  - `listing`: branches, tags, remotes, repository summaries, file contents;
  - `error`: error texts and the JSON-RPC codes they are answered with;
  - `text`: the character-level operations the rest is built on.
  Public `law_*` proof functions state the properties that hold across calls.
- `app/` is the program: command line, repository discovery, reading
  repositories with `gix`, running `git status` and `git blame`, JSON output,
  and the MCP tool handlers.
- `tests/` exercises the library on concrete values.
