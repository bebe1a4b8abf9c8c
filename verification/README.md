# asterbase

A text adventure set on a space station, written as a Verus library with
its contracts proved, and a thin terminal program around it.

- `src/` is the verified library: the compressed data file format and its
  sections (commands, locations, items, texts), the world of items, places
  and inventories, the player's actions, the course of a game turn by turn,
  and how texts are laid out on the console and typed lines are read.
  `src/laws.rs` holds properties that span several functions.
- `app/main.rs` reads the data file named on the command line and runs the
  game on the terminal: it hands the library what the player types and
  prints what the library says.
- `tests/` exercises the library on a small generated data file.

The only outside crate is `rand`, which draws the turns of the random events
and the fatal rolls of risky moves (`src/chance.rs`).

Two notes on the commands:

- The commands for testing a data file (`flash`, `grab` and `node`) are
  always available: the library has no build-dependent code, so every
  command the data file lists with an action can be carried out.
- Jumping, waving and playing marbles have no action: the game defines no
  operation for them to perform.
