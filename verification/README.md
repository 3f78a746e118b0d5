# imdb-rename

Proposes new names for media files after their entries in IMDb: `Heat.1995.720p.mkv`
becomes `Heat (1995).mkv`, and `The.Simpsons.S01E02.mkv` becomes
`S01E02 - Bart the Genius.mkv`.

- `src/` is the library, verified with Verus. It reads a candidate off a path
  (`candidate`), says step by step what to ask of IMDb (`renamer`), remembers the answers
  (`query`), and settles on the proposals that can be carried out together (`proposal`).
  `laws` states what holds of all of it. What is taken from the standard library's paths
  and from the `regex` crate is declared in `paths`, `patterns` and `text`.
- `app/` runs the library against a catalogue and the file system.
- `tests/` holds the tests.
