# frog_swing

A small Bevy game in which a frog swings by its tongue, with a 3D plane
scene beside it. The game's integer and boolean logic lives in `src/` and is
verified with Verus:

- `terrain`: the topology of the terrain mesh (vertex order and the triangle
  list over the grid), with proofs that every index names a vertex, that each
  cell's triangles use its four corners, and that all triangles wind alike.
- `player`: the frog's jump and tongue flags as a small state machine driven
  by mouse-button edges, with a proof that each flag follows the last edge of
  its button.
- `physics`: how the overlap of two colliding bodies is shared out between
  them, with proofs that immovable bodies never move and that the shares
  always cover the whole overlap.
- `input`: the keyboard bindings of the plane's controls.

`app/` holds the Bevy systems, rendering and all floating-point work
(positions, forces, noise heights, colours), which call into the library.
