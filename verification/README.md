# waywallen

The part of the Waywallen wallpaper daemon that decides, verified with Verus.

- `src/` is the library. Its functions have contracts that Verus proves. A few
  small functions call `semver`, `url` (through `reqwest`), `uuid`, `chrono` and
  the standard library; what they promise is believed, and said above each.
  - `plugin/source/` reads what Lua plugins declare and answer, and says which
    callback is asked, with which context, and what its answer means.
  - `plugin/source_manager.rs` keeps the generations of loaded plugins.
  - `plugin/renderer_registry.rs`, `plugin/display_registry.rs` and
    `plugin/settings.rs` hold what manifests declare.
  - `plugin/update.rs` judges announced updates.
  - `renderer_manager.rs`, `producer.rs` and `probe_task.rs` keep track of
    renderer processes, producers and media probes.
- `app/` is the code around it: files, processes, the network and the Lua
  virtual machines. It hands plain values to the library and takes plain values
  back.
- `tests/` runs the library, with real Lua plugins where plugins are concerned.
