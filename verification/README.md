# rlogg

A two-pane viewer that filters large text files by regular expressions.

The top pane shows the whole file. The bottom pane shows the lines that match a
pattern; clicking one scrolls the top pane to it. Lines can carry notes, which
are shown above them, searched along with the file and copied along with the
lines.

## Layout

- `src/` is the library, written in Verus: the exact line index, the rows of the
  panes and the windows that are built of them, selections, the search history,
  the notes, and the viewer's state with every operation on it. Its contracts
  speak of plain values (`state::AppState`, `selection::SelectionState`, the
  bytes of the file), and `laws` states what the operations promise together.
- `app/` is the window around it: widgets, pixels, the file dialog, and the
  thread that searches the file.
- `tests/` runs the library.

## What is taken on trust

- `reader`: the memory-mapped file of `large-text-core`, the bytes it hands out
  and the text it decodes.
- `encoding`: how `large-text-core` guesses the encoding of a file.
- `pattern`: the `regex` crate; whether a pattern is in order, and whether it
  matches, are named but not spelled out.
- `text`: two trimming functions of the standard library.
