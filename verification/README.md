# rt_rust

The integer and structural core of a spectral path tracer, verified with
Verus, and the program around it.

## Layout

- `src/` — the verified library.
  - `spectrum.rs`: samples, wavelength lists, spectra and their sum,
    product and scaling as merges by wavelength; positions in the colour
    matching tables.
  - `spectral_image.rs`: images whose pixels are spectra.
  - `gpu_immediate.rs`: vertex formats and their packing, attribute
    bindings, and the bookkeeping of immediate mode drawing (where
    vertices go in the streaming buffer, what to flush, enable and
    draw).
  - `id_map.rs`, `scene.rs`, `shader_list.rs`, `texture_list.rs`:
    objects, shaders and textures stored under random identifiers, with
    their order of addition and the selection.
  - `medium.rs`, `traversal_info.rs`: the mediums a ray is in, and the
    rays of a traced path with the window of them that is drawn.
  - `materials.rs`: materials, and where a wavelength falls in a table of
    indices of refraction.
  - `viewport.rs`, `name_gen.rs`, `ray_trace_params.rs`, `drawable.rs`,
    `shader_error.rs`, `sampler.rs`: viewports in a window, generated
    names, render settings and small shared types.
  - `rng.rs`, `std_range.rs`: the trusted items (random numbers, ranges).
- `tests/` — tests of the library.
- `app/` — the floating point and OpenGL parts (rays, colour
  conversion, indices of refraction, immediate mode drawing, shaders),
  a thread pool, and the program that renders a list of scenes with
  settings from a configuration file.

The laws of the library are its public `law_*` proof functions.
