# editor_session

Session state and decisions of an editor, verified with Verus:

- `prompt_history` keeps the prompts of a thread with their positions in it and
  lists them as a menu.
- `view_mode_memory` and `markdown_preview` remember in which view a file was
  left and decide when a markdown file is shown rendered.
- `project`, `terminal_launch`, `activation`, `shell` and `terminals` decide
  where a project's terminals open, in which environment and with which
  command, on this machine or at the far end of a remote project.
- `workspace_history` gives every workspace a shell history file of its own.
- `env`, `text_map`, `text` and `paths` are what these are made of.

`app/` performs what the library decides: it reads and writes files, waits for
the editor, and starts processes. The running editor takes part through the
traits that `app/` declares.

The library calls `sha2` for the id of a workspace, `itertools` to join texts,
`shellexpand` for a leading `~`, and `std::path` for the order, the join, the
parent and the text of paths, which need not be Unicode. What is assumed of them
stands at the functions that call them.
