# homeworlds

A verified library for a two-player Homeworlds-style game: pieces, the
bank, star systems, actions and their validation, turns with sacrifice
budgets and automatic turn end, the game's status, the YAML save model,
a computer player, and the command language, completion and screens of a
text hot-seat interface and a terminal interface.

`src/` is the library, written in Verus: each public function states what
it does in `requires` / `ensures`, and Verus proves it. `src/laws.rs` holds
properties that span several functions, stated and proved as proof
functions. The few calls into the standard library that Verus has no
specification for stand behind small trusted wrappers, each with a doc
comment saying what it claims.

`app/` is the program around the library: the terminal, the line editor,
file reading and writing, and YAML through serde. A session does not
touch files itself: each file operation it needs is a request in a
`FileJournal`, and its contracts say which requests it makes and what it
does with each answer. The program runs the session on a copy; when the
run asks past the answers given so far, the program performs that one
request, adds its answer, and runs again. Each request is so performed
once, in order.

`tests/` runs the library on concrete values.

## Rules that the tests follow

The tests hold to the rules as the library states them. Among them:

- A trade needs blue power in the system, unless a blue sacrifice grants
  it, so the AI lists no trade where there is none: the tests that expect
  trades among the decisions, and the order of the families, use a board
  whose homeworld holds a blue star.
- Completion offers, as piece arguments, the pieces on the board: the
  tests expect the pieces the default board holds.
- A star system may hold no ships, as the design notes allow, so no test
  expects such a system to be refused.
