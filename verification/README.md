# pf_sandbox

The game logic of PF Sandbox, a platform fighter with an integrated
character editor, written in Verus. The functions in `src/` carry contracts
that the verifier proves; the few that call other crates or read the clock
(the seed of a local game, a random netplay id, option parsing, hashing)
rest on trusted declarations whose doc comments say what is assumed of them.

- `src/`: the library. Fighter frames and their editing, the editor's
  keyboard shortcuts, the action transitions of a fighter, packages and
  their data-format upgrades, menus and the character select screen, game
  setup from the command line and the ranking of results, the decisions of
  a netplay session, the input history, the in-game command line and the
  commands that walk the game's data, and the command line of the program.
- `tests/`: tests of the library on concrete values.
- `app/`: the program around the library: reading the arguments and files,
  JSON and binary serialization, and the UDP socket of netplay sessions.

Not here: the physics, rendering, audio, controller drivers and the menu
and game loops that draw on them (they work in floating point or on
graphics and device libraries), so the program in `app/` has no graphics
and plays no game.
