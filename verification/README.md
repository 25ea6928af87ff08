# gitxel_art

Pixel art in the GitHub contribution calendar: an image of at most 49x7 pixels becomes a
grid of commit counts, one per day, and each count becomes backdated commits on that day of
the chosen year, starting from the year's first Sunday.

- `src/` is the library, verified with Verus: the calendar (`calendar`), the commit grid
  (`image_proc`, `grid`), the planning of the commits (`git_bot`), the terminal preview
  (`preview`), the command line and wizard rules (`cli`, `prompt`), what follows generation
  (`run`), and text helpers (`text`).
- `app/` is the program around it: argument parsing, prompts, reading the image file, the file
  writes and git commands, printing.
- `tests/` exercises the library with the real outside crates linked.
