# cyber_path

The game logic of four retro terminal games on a grid, verified with Verus:

- `models`: cells and directions, neighbours, distances.
- `game`: path mode. A random path is generated (every path found lies on the grid, never
  repeats a cell and steps between neighbours); the player then replays it move by move.
- `chase`: chase mode. The player flees; the bot takes one or more steps per move. Before
  each step a random draw decides: about one step in four goes to a random neighbouring
  cell on the grid, the others to the first of Up, Down, Left, Right that brings the bot
  closest to the player. The contracts state each step as a function of its draw.
- `snake`: snake mode, with growth, wall and self collision, and food on free cells.
- `flappy`: flappy mode, with gravity, jumps, scrolling pipes and scoring.
- `input`: what a key means during and after a round.
- `ui`: the layout of the board on a terminal and the characters of its grid lines.
- `session`: the rounds of the four modes as functions from game state and player input
  to the next phase and the list of things to draw and play.
- `random`: the one call into `rand`.

`app/` holds the terminal program (`--mode path|chase|snake|flappy`): argument parsing,
keyboard events, timing, drawing and sound.
