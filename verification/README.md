# raytracing

A GPU path tracer (mega-kernel and wavefront) for the scenes of the "Ray Tracing in One
Weekend" series, with a configuration menu and mouse-driven camera.

- `src/` is the verified library: the scene model (primitives, materials, shared
  textures), how a scene is flattened into the tables the shader reads (with the
  materials and textures shared by identity written once), the render-state machine
  (menu, mouse, frames), the wavefront pass planning, the image-copy layout and the
  bit patterns of single-precision numbers that the tables hold.
- `app/` is the program around it: the window, the GPU, the egui menu, and the
  floating-point geometry (bounding boxes, quad frames, rotations, the camera).
- `tests/` runs the library on concrete scenes and events.

The program reads `raytracing.wgsl` and `earthmap.jpg` from its working directory and
saves downloaded renders as `render.png`.
