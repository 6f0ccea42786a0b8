# bevy_psx

PSX-style retro rendering support for Bevy, with its core verified in Verus.

- `src/` — the verified library: hex palette files (`hex`, `palette`), the
  palette manager (`manager`), startup loading of configured palette groups
  (`loader`), material and global effect settings with their presets
  (`material`), render-target settings (`render`), palette file-name rules
  (`files`), fixed-point colors (`color`) and character-level text helpers
  (`text`). Every function carries a contract proved by Verus; the laws of the
  library are public proof functions next to the functions they relate.
- `tests/` — tests of the library on concrete values.
- `app/` — the engine side: Bevy resources and components, the material
  extension with its shader uniforms, the ECS systems and the plugin. It
  converts between the library's fixed-point colors and `f32` bit patterns and
  the engine's `Vec3`/`f32` values.
