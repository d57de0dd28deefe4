# vitanchiki

The rules of a terminal tank game, verified with Verus: tanks turn, queue
moves, drive around obstacles and shoot; bullets fly across an arena of walls
and water; hits wreck enemies and the player; explosion marks fade out frame
by frame.

- `src/` is the verified library. `geometry` (rectangles and their overlap),
  `utils`, `bullet`, `player` (tanks), `enemy`, `wall` and `animations`
  (explosion marks) hold the pieces; `app` the round and its keys; `layout`
  how a round is laid out on a grid; `frame` what one frame of play does;
  `levels` how levels follow each other; `laws` the properties proved of them.
- `app/` is the terminal program around it: it reads the terminal size and
  the keyboard, draws with ratatui, and calls the library once per frame.
- `tests/` runs the library on concrete rounds.
