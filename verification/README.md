# Bare King

A chess survival game on a 16 by 16 board: the player's lone king is hunted
by pieces that announce their next move a round ahead, and fights back with
abilities paid for in energy.

- `src/` is the rules of the game, verified with Verus: the board and the
  pieces' move planning (`board`), the game state, the enemies' move and the
  spawning of new pieces (`game_data`), the abilities and their effects
  (`ability`), the player's king (`player`), the order of a round and the
  scoring (`turn`), the settings and the menus' decisions (`home`), the table
  of key names (`keys`), the text handling they need (`text`), and the
  properties stated across them (`laws`).  Random draws come from `rand`, behind the two functions of
  `random`.
- `app/` is the program around it, built on macroquad: drawing, sound,
  input, saving with savefile, and the floating-point parts (difficulty,
  score, particles).
- `tests/` runs the library on concrete games.
