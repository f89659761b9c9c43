# moaremotes

A terminal editor for emote lists. A list is a JSON file with one entry to a line, such as
`["https://example.org/emote.png", "name"],`. The editor marks addresses that occur twice, asks
the net which addresses are gone, and takes such lines out.

- `src/` is the editor itself, verified with Verus: editing with undo and redo, finding and
  removing repeated and missing rows, loading and saving, the check of the addresses, what each
  key does, and what the screen shows. `src/model.rs` says what the editor is as a mathematical
  value; the functions of `src/` are proved to do to it what the model says. `src/laws/` holds
  what is proved of the editor as a whole, such as that undo takes back a change and that what is
  saved loads again.
- `app/` runs the editor on a terminal: keys, screen, files and requests.
- `tests/` runs the library on concrete texts.

Three things are taken on trust, each with its contract: `String::push`, whether `serde_json`
reads a text, and the reason phrase that `reqwest` has for a status code.

| key | does |
| --- | --- |
| F1 | help |
| F2 | save |
| F3 | remove repeated rows |
| F4 | ask for every address |
| F5 | remove the rows found missing |
| F6 | load from the net or from a file |
| F10 | quit |
| Ctrl-Z, Ctrl-Y | undo, redo |
