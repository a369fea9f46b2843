# dsge_vk

The CPU-side logic of a small Vulkan engine, verified with Verus.

`src/` is the verified library:

- `glenums`, `text` — GLSL versions, types and attribute types, their names and sizes.
- `shader` — assembly of GLSL sources (inputs, outputs, uniform blocks, samplers,
  push constants, macros) with location and binding bookkeeping, and the
  program builder that checks that stages agree on their uniforms.
- `material` — material parameters, the GLSL each shader variant of a material
  is made of, and the state of a built material.
- `render_graph` — the post-processing graph: stages, links, the refusal of
  loops that pass through no stack buffer, and stack buffers that rotate.
- `mesh`, `scene_file` — the binary mesh and scene formats.
- `culling`, `light`, `components`, `game_logic`, `bits`, `texture`,
  `name_map` — frustum culling decisions, uniform blocks, input handling and
  supporting types. `f32` values are held as their bit patterns.

`app/` is the program around it: file reading, shader compilation with
`glslc`, and the floating-point math (with `nalgebra`).
