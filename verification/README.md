# novluno

Game-side logic of the Novluno client for the Redmoon Online data files,
written in Verus: the functions in `src/` carry contracts that Verus
proves. One item is trusted rather than proved: the wrapper
`text::is_alphabetic` around std's `char::is_alphabetic`, whose answer the
contracts name `char_is_alphabetic` (the Unicode Alphabetic property).

Layout:

- `src/` — the verified library:
  - `entity`, `text`, `paths`, `asset_loader`: the data model of maps, data
    files (RMD) and list files, zero-padded asset names and file numbers,
    and what the asset loaders decide;
  - `resources`, `sprite_manager`: caches of data files, maps and decoded
    sprites;
  - `collision`: the walkability grid and its overlay markers;
  - `map_spawn`, `systems`: the map spawning state machine, draw lists of
    the tile and object layers, depth ordering and sprite clipping;
  - `player`, `camera`: player movement, animation, character sprites and
    debug tints;
  - `input`, `game`, `classic_render`, `character`, `config`, `constants`:
    the input state, game state and draw lists of the classic client.
- `tests/` — tests of the library on concrete values.
- `app/` — the Bevy client around the library: windowing, asset loading
  through the `core_compat` parsers, entity spawning, the camera and the
  egui debug panel.
