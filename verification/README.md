# single_player_game_physics

The rules of a small physics game, written in Verus: every function states what it returns or
changes, and the verifier proves it. Around the rules stands a browser game: a ball on a table
that is rolled with the keys, flung by touch, and made to jump; clicks drop more balls; every
impact makes a sound.

## Layout

`src/` is the verified library.

| Module | What it decides |
|---|---|
| `protocol` | the messages between the page and the worker, and the player's input |
| `physics` | the world's bookkeeping around each engine step: contacts, impacts, poses, drops |
| `physics::motion` | pushes, flings and speed limits, relative to the camera |
| `physics::bodies` | what the engine is told to build |
| `physics::laws` | what holds of the world over many steps |
| `pacing`, `stats` | how many fixed steps a frame runs; what is measured and reported |
| `camera`, `table` | the orbit camera; where a click drops a ball |
| `worker` | what messages change, what a frame does, what is reported back |
| `scene` | what the physics takes out of an exported scene |
| `pointer`, `keyboard` | clicks, drags, taps, swipes and keys |
| `settings`, `shell` | graphics settings; the page's log, panel and overlays |
| `audio`, `audio::export` | which sound parameters each cue sets; what a sound export holds |
| `noise` | the worklets' number streams |
| `box3d`, `wasm_shim` | plain records of the engine's interface; its memory, hash and log |
| `text`, `units` | small questions about text; fixed-point numbers |

Public `proof fn`s state laws over several functions, such as that the camera of the worker and
the yaw that the page mirrors for the listener always agree.

`app/` is ordinary Rust around the library: the page, the worker's loop, the renderer, the
sound player, the engine's C interface, and the two sound worklets. It holds what is floating
point (matrices, spherical interpolation, signal processing) and what is input or output.

`tests/` runs the library on concrete values.

## Numbers

The library computes in whole numbers: millionths of a metre, a metre per second, a radian, a
second, a hertz, or of one. Pointer coordinates and drags are thousandths of a CSS pixel where
a message carries them. What is too large for 64 bits counts as the nearest number they hold;
contracts write `held` where that can happen. `app/convert.rs` converts.

## What is trusted

All of it reads files with outside crates. Whether a text is such a file, what it holds of the
things below, and the fault where it is none, are taken to depend on the text alone. The walks
over what was parsed are verified.

- `scene`: `awsm_renderer_scene::project_dir::scene_from_toml`, and reading single fields of the
  `Scene` and the `EditorNode`s it makes: ids, names, kinds, collider extents, local transforms
  and children.
- `audio::export`: `toml::from_str` into an `awsm_audio_schema::Project`, and reading single
  fields of its library: samples and their names, their nodes' labels and whether they are
  worklets, and the ids of the worklet modules.
