# pora_rs

The hot loop of the PORA collision-risk metric, as a Python extension.

- `src/` is the verified library (Verus): the row-major layout of occupancy
  grids (`grid`), the cells that a bilinear sample reads, and the window,
  grid and horizon dimensions (`window`).
- `app/` holds the Python bindings (pyo3, numpy), the rayon parallelism and
  the `f64` arithmetic of the metric, which calls the library for every
  index and dimension.
- `tests/` exercise the library on concrete values.
