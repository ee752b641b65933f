# spooky_world

The rules of a small first-person arena game, verified with Verus.

- `src/movement.rs`: walking and sprinting, the keys of a frame turned into a
  direction, a state toggle and a view reset, and the vertical plan of a step
  (landing, coyote time, jumping).
- `src/collision.rs`: from the collision events of a frame to the enemies that
  touched a platform with their sensor, and the pairing of enemies with
  platforms.
- `src/terrain.rs`: the index buffer of the terrain grid and the merged index
  buffer of repeated platforms, with proofs that every index names a vertex.
- `src/randomiser.rs`: the seed that enemy positions are drawn from.

`app/` holds the game itself on top of the library: the engine systems, the
physics and rendering values, and everything in floating point.
