# org-roamers (verified core)

org-roamers serves an org-roam note collection to a web client: a graph of
the notes and their links, each note rendered to html, search, and LaTeX
fragments rendered to SVG.

- `src/` is the library, written in Verus and verified: the html exporter
  (`html`), the node gatherer (`org`), the org syntax tree that orgize
  parses and the walks over it that both read (`orgtree`), the graph queries and their assembly
  (`graph`), search (`search`), the file cache (`cache`), bringing the
  database up to date with a changed file (`diff`), users and sessions
  (`auth`), assets (`assets`), LaTeX documents (`latex`), the websocket
  protocol (`client`), the command line tools (`cli`), the launcher's
  settings (`gui`), and the text functions they share (`text`).
- `app/` is the server around it: the command line, the http routes, the
  SQLite database, reading files and running `latex`.
- `tests/` runs the library on concrete inputs.
