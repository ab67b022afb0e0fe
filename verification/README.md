# wyst

A small toolkit, verified with Verus, for two jobs:

- **Lexing** source text into flat tokens (words, white space, newlines,
  quoted text, delimiters, comments) and reading those into a tree of
  delimited groups (`src/lex`). Quotes and comments are decided by a
  pluggable delegate.
- **Laying out** structured text within a page width (`src/printer`): a
  sequence of high-level instructions (text with a placement, indentation
  changes, break opportunities grouped by identity and level) is laid out
  into lines; a line that overflows takes the lowest skipped break and the
  layout goes back to the line that skipped it. The lines become low-level
  instructions (text and line breaks) that a `Print` destination prints.

Supporting modules: `src/source` (offsets, spans, sources), `src/style`
(styles and the `Print` trait), `src/utils` (insertion-ordered maps and sets
with entry APIs), `src/traits`.

Every function in `src/` has a contract, and the laws of the library are proof
functions beside the code they speak of: for example, that the tokens of a
source cover it without gap, that reading a map after a write gives the value
written, that every break a line skipped stays on record until the line ends,
and that layout only places texts of its input.

`app/` holds what needs a terminal: printing through crossterm, and formatting
interned text for display. `tests/` holds the tests.
