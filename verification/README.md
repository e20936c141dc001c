# mrtui

A terminal UI for GitLab merge requests: browse the open merge
requests, search them, read a merge request's description, comments and diff,
merge or approve it, and check its branch out into a git worktree.

## Layout

- `src/` is the library, verified with Verus. It holds what the program
  decides and computes: the settings and the settings text, the request URLs
  and how the answers of several projects are merged and ordered, the markdown
  renderer, the git arguments and outcomes and the steps of making a worktree, the application state and how it
  answers keys, the mouse wheel and background results, and every line the
  screens show, as styled text.
- `app/` is the program around it: the terminal, the HTTP requests, git, the
  settings file, and the drawing of the library's lines with ratatui.
- `tests/` runs the library on concrete values.

The outside crates the library calls (pulldown-cmark, reqwest's header check,
dirs, std's string helpers) are reached through a few trusted functions whose
contracts state what the crates' sources show.
