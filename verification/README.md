# render_engine

The object model of a rendering engine, written in Verus: every function in `src/` is
verified against its `requires` and `ensures`.

- `src/` — the library: entity identifiers, the entity-component store (`ecs`,
  `component_storage`, `sorted_entities`), entity change requests, model banks and instance
  counts (`model_storage`), packed texture locations (`model_definitions`), the choice of
  lights that get shadow maps (`shadow_flow`), std140 uniform blocks (`uniform_layout`),
  generated shader interface text (`shader_text`), the layout of recorded play instances
  (`game_loader`), the frames of a recorded play (`playback`) and the texture array that
  wastes least space on a texture (`texture_choice`). `collections` holds the `hashbrown`
  maps and sets the library uses, each method with the contract that `hashbrown` documents.
- `tests/` — tests of the library on concrete values.
- `app/` — the glue around the library that Verus does not see: typed component access,
  file reading, serializable copies of identifiers, and the float parts of level-of-view
  selection, shadow mapping, entity placement and texture waste.
