# sustain_ui

The decisions behind the window of a music player, verified with Verus: how
albums are grouped and laid out, what is played and queued, how playlists and
devices are shown, what covers are kept, what an import or a consolidation asks
for.

- `src/` is the library. It holds no widgets: each function takes plain values
  and says in its contract what it returns, for every input. Laws that relate
  several functions stand beside them as `law_` proof functions.
- `app/` holds the widgets, the threads and the disk, and calls the library for
  each decision.
- `tests/` runs the library on concrete values.

What the program behind the window computes (which tracks match a search, what a
smart playlist holds, which release a disc is) comes in as arguments. The calls
into the standard library that Verus has no specification for are wrapped in
`src/text.rs` and `src/paths.rs`, each with the contract that it is trusted to
meet.
