# clickdown

A command-line client for the ClickUp task tracker: list workspaces, spaces,
folders, lists, tasks and task details; list comments and threads; change a
task's status, title or assignees; filter tasks by status, assignee or title;
add comments; save a request under a name (an alias) and run it again.

Layout:

- `src/` is a library verified with Verus. It holds the data the client
  reads and sends, the decisions that pick what a run does
  (`cli::plan_main`, `cli::plan_get`, `cli::plan_delete`), the request URLs,
  the filters and searches of task listings, the calendar dates of
  timestamps, the saved aliases and the text
  of the tables and task details, each with a contract, and the laws that
  relate them (saving, deleting and re-running aliases, searching, reading
  back the token and listed ids).
- `app/` is the program around it: command-line parsing (clap), the HTTP
  requests (reqwest), the JSON files (serde), prompts (inquire) and terminal
  output (comfy-table, colored).
- `tests/` runs the library on concrete values.
