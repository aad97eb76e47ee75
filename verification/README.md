# ghdeck

All your GitHub pull requests and issues in one list, newest first, with the
status of each one: conflicts, failing checks, reviews asked of you, and who
you are waiting on. A terminal dashboard and a few commands.

The crate is in two parts.

- `src/` is the library, verified with Verus: reading GitHub's answers into
  items and conversations, the status chips, the filters, the dashboard's
  state and what every key and every worker report does to it, the texts
  that the commands print, and the decisions around the API (retries,
  look-ups, the activity feed, notification polls). Each public function
  states what it returns in its contract; the laws that span functions are
  proof functions named `law_*`.
- `app/` is the program around it: the terminal, HTTP, the SQLite cache,
  the token, and the worker thread. It hands the library plain values and
  carries out what the library decides.

Modules of the library:

| module | what it holds |
| --- | --- |
| `json` | a JSON document as the rules read it |
| `text`, `markup` | characters, lines, links, tags and the one-line gist |
| `clock` | instants and their texts |
| `model` | an item, its state and its chips |
| `github`, `thread` | a search row into an item; a thread into a conversation |
| `order`, `search`, `feed` | gathering pages into one list, each item once, newest first |
| `client`, `work`, `sync` | what the API's answers mean, and the worker's decisions |
| `deck`, `keys`, `screen` | the dashboard's state, keys, and screen texts |
| `command`, `report` | the command line and what it prints |
