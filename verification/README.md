# workbench

The decision logic of a streaming terrain-and-object renderer, verified with
Verus. The GPU work itself (command lists, resources, shaders) is not here:
the library decides what to stream, where it lives, when it may be
published, and checks what the GPU reports against CPU oracles.

## Layout

- `src/` — the verified library.
  - `load`, `address`, `world`, `resident`: load windows over the bounded
    region grid, their global addressing, and the active-region rules.
  - `terrain/`: the terrain slot cache (`cache`, with its laws in
    `cache_laws`), the copy stream that moves tiles into slots
    (`transfer`, laws in `transfer_laws`), the canonical projection, the
    patch level-of-detail rules (`lod`), the exact surface heights
    (`surface`), the level-of-detail oracle (`lod_oracle`) and the checks of
    the terrain pass's counters (`probe`).
  - `composition/`: the pairing of terrain and object halves, the camera
    traversal and its rollover, the object fixtures and their grounding
    (`fixture`, `grounding`, `boundary`) and the contact probe (`contact`).
  - `publication`, `renderer`, `frame`: the publication of staged pairs,
    the renderer's composition controls and the per-frame decisions.
  - `digest`: little-endian byte encodings and the SHA-256 digest, the one
    call into an outside crate (`sha2`).
- `tests/` — tests of the library on concrete values.
- `app/` — the host side: camera and positions in meters (floating point),
  and the JSON reports of the probes.
