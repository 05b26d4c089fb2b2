# focus

Sticky notes for macOS: four windows, each of one color, titlebar included. What is typed is saved
at once, and the notes can ask herdr, over its socket, which of its workspaces are in use.

- `src/` is the library, verified with Verus: herdr's requests and replies (`herdr`), JSON values
  (`json`) and their text (`wire`), the database (`store`), what a note looks like and does (`note`),
  the menu bar and keeping the notes on top (`menu`), paths (`paths`) and strings (`text`).
- `app/` is the program: AppKit, herdr's socket, the file system.
- `tests/` runs the library, with the real `serde_json` and SQLite.

What the library takes on trust of `serde_json` and `rusqlite` is in `wire` and `store`. Of a
database in a file less is said than of one in memory: another program may write to it too.
