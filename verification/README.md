# Boat

A small fleet on the water, shown through Picasso on TRUEOS.

- `src/` is the library: every decision of the program, with its contract,
  verified by Verus.
- `app/` is the program around it: files, the platform, and all floating-point
  arithmetic.
- `tests/` runs the library on concrete values.

## How the two meet

Calls to the platform are the program's.  The library tells which call comes
next and takes its answer: `run::BoatRun` for the program as a whole,
`opening::Opening` for bringing the scene up, `render::FrameRender` for one
frame.  Each has a `next` or `step` in its specification that says what follows
which answer, and an executable `advance` that is proved to do that.

Numbers with a fraction cross as the bit patterns of single-precision values.
The library keeps them, writes them, and compares them; it does no arithmetic
on them.

## What is trusted

Calls into two outside crates are trusted rather than proved.  Each stands in a
small private function whose contract gives the crate's answer a name and says
nothing else of it, so what the library makes of the answer is proved for every
answer.

- `base64`: `decode_base64` in `src/source.rs`.
- `gltf`: the functions `parse_*` in `src/document.rs`, which list what a
  document says, and `read_*` in `src/attribute.rs`, which read a primitive's
  attributes.  They are called only for documents and accessors on which the
  crate does not stop the program; the library looks for the others first.

## Baking

A source model is baked when the program starts.  `document::read_document`
parses it, `document::load_buffers` and `model::load_textures` take what the
program read from files, `attribute::read_primitives` reads the primitives,
`mesh::bake_model` bakes them, and `model::prepared_asset` makes the catalog
entry.
