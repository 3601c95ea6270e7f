# dartup

The verified library of a Flutter SDK version manager lives in `src/`:

- `paths`: Unix-style paths held as strings and their `join`, with laws on it.
- `text`: decimal rendering, string equality and lexicographic order.
- `config`: the XDG data/cache layout, override files, the legacy
  `~/.dartup` layout and the plan of its migration.
- `engine_cache`: where cached engines live, when a cached engine is intact,
  and what linking, adopting, listing and downloading engines take, decided
  from what was observed on disk.
- `releases`: the release list URL, the records made of the release API's
  listing, the fall-back to the disk cache, listing and lookup of a version.
- `util`: human-readable sizes (exactly as a double formatted with one
  decimal) and home-relative display of paths.

`app/` is the command line: it reads the environment, the filesystem and the
network, and carries out what the library decides.
