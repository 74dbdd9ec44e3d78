# viletech

The data layer of a Doom engine, with its behaviour stated in contracts
and proved by Verus.

- `src/` is the verified library: the ACS string pool, the virtual file
  system, WAD preparation passes, vanilla lump formats (levels, COLORMAP,
  ENDOOM, PLAYPAL, PNAMES, TEXTUREx, pictures and flats), CVARINFO parsing,
  sound font and MIDI format detection, configuration, console state, and
  the bookkeeping of preparation errors. The load-progress trackers are
  atomics shared across threads: their counter methods carry no contracts,
  only the decision `progress_reached` they share does.
- `tests/` runs the library on concrete inputs.
- `app/` is the unverified shell around it: file system walks, TOML and Lua
  conversions, floating-point presentation and user-facing messages.
