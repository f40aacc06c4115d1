# bevy_amoeba

Soft-body ("amoeba") rendering for Bevy: each soft body is a set of nodes whose
positions deform a circular mesh on the GPU.

- `src/` is the verified library, written in Verus. It holds the integer side of
  the renderer: the topology of the grid and circle meshes (`mesh`), the packing
  of each frame's node data into the fixed-size node and instance buffers
  (`nodes`, `instances`), the instance counter and workgroup sizes of the compute
  pass (`soft_body_compute`), and the sizing of the vertex buffer (`vertices`).
  Their contracts and the laws that relate them are proved.
- `app/` is the Bevy plugin around it: plugins, components, resources and
  systems, and the floating-point geometry (vertex positions, texture
  coordinates, node motion, centres of mass).
- `tests/` runs the library on concrete values.
