# gorldle

A guess-the-Dota-character game. The server picks a character of a profile at
random; the player guesses characters by name and, for each guess, learns
which of its fields (attribute, positions, attack type, release year) match
the answer.

- `src/` is the verified library: the JSON model of profiles (`json`), the
  characters and their fields (`dota`), the shape of a judged guess
  (`profile`), the server's rules (`server`), the player's side of the game
  (`game`), and the text operations of std they rely on (`text`).
- `app/` holds the axum server, the Leptos component, and the serde forms of
  the library's types.
