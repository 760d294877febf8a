# macroquad_fun

A small 2D platformer made with [macroquad](https://macroquad.rs/), with levels
drawn in [LDtk](https://ldtk.io/), and the little web server that stores the
input recordings players send for analytics.

The rules of the game that do not depend on floating point are a library
verified with [Verus](https://github.com/verus-lang/verus): each public
function states what it returns in its `ensures`, and the laws that relate
several calls are proof functions.

## Layout

- `src/`: the verified library.
  - `input`, `recorder`: held buttons, which of them were just pressed, and
    the recording of an input stream as postcard messages, with its playback.
  - `level`, `xy_range_iterator`: the layers and entities of a level file, its
    tile layers, its collision grid and the colliders of its solid cells.
  - `entity`: the ids of the entities in play, and the level-file ids they
    were made from.
  - `attachment`, `switch`, `push`, `text`, `z_index`, `animator`, `time`,
    `gem_counter`, `font`, `collision`, `hex_color`: the decisions of the
    game's systems.
  - `server`: which requests to the recording server are accepted, and into
    which recording their bytes go.
- `tests/`: tests of the library.
- `app/`: the game and the server around the library: loading assets and
  levels, drawing, physics in floating point, input devices and HTTP.

## Running

- Verify the library: `verus src/lib.rs --crate-type lib` with the outside
  crates of `Cargo.toml`.
- The game: `app/main.rs`; `--serve` runs the recording server instead.
