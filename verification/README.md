# pebble

Pebble Hub is a terminal explorer for Arch Linux packages: choose on the hub whether to
install or remove packages, type a search, pick a
result from the list, enter the sudo password if needed and watch pacman install it.

- `src/` is the library, verified with Verus: the relevance score and ordering of
  search results, the parsing of pacman's listings and the pacman command lines, the
  interface's state machine (keys,
  mouse, list navigation, search debounce, the installation log), the prompts of the
  line-oriented interface, and the course of an installation (password check first,
  then pacman) with its messages.
- `app/` is the program: the terminal, the pacman and sudo processes, the background
  threads and the drawing. It carries out the actions the library returns.
- `tests/` exercises the library on concrete values.
