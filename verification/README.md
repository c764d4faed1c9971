# flyline

A verified library for the logic of flyline, an interactive command-line
editor for Bash: the edit buffer with undo and redo, the shell lexer and
word motions, tab-completion contexts, the prompt (time placeholders,
animations, widgets, the working directory and how prompt lines are drawn),
the colour palette and text styles, the screen contents builder, mouse
state, and what a `flyline` builtin call does to the session settings.

Every function in `src/` is written in Verus and carries a contract that
Verus proves. Calls into other crates (grapheme segmentation, display
width, shell word splitting, rich-style parsing) go through a small set of
trusted wrappers whose contracts restate those crates' documentation.

`app/` holds the parts that talk to the system: clocks, host files,
process spawning, `LS_COLORS`, terminal escape sequences and formatting
times; it hands the library plain values. `tests/` holds the tests.
