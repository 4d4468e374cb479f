# mapeditor

The editing logic of a tile map editor, written in Verus and proved
against its contracts.

- `src/` is the library. `map_view` holds the maps being edited with
  their tools: drawing, erasing and flood filling tiles, attributes and
  npc zones, and undo/redo over recorded changes (`map_view/undo.rs`,
  whose laws state that undo gives back what a session changed).
  `region.rs` is the flood-fill framework the three fills share.
  `editor_data.rs` keeps the loaded maps and which of them changed;
  `keys.rs` the key bindings and shortcuts; `texture.rs`, `resource.rs`
  and `tileset.rs` the images, tile sheets and the tileset panel.
  `interface/` holds the state of every widget of the editor's panel,
  dialogs and preference window, and `input.rs` the decisions taken on
  keys and dialog buttons. `map_input.rs` is what a click on the map
  does with the tool in use (and the moves between linked maps);
  `map_press` opens an undo record first, and `lemma_click_undone`
  states that applying that record gives the click's tiles back.
  `interface_input.rs` is what a click on the panel's bar, tab options,
  drop-down lists and tileset list does, what dragging a held scrollbar
  does (`scrollbar_drag`) and what a release lets go of
  (`release_input`). `pointer_press` and `pointer_drag` route a press or
  a drag to the tileset panel or the map. The pointer's hit tests are
  the program's, which hands the library what lies under the pointer.
- `tests/` runs the library on concrete values.
- `app/` is the program around it: configuration and map files on disk,
  and the floating point geometry of the pointer and of rendering.
