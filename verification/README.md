# tensor_compress

Building blocks for Monte Carlo reactor-physics simulation, split in two:

* `src/` — the verified library (Verus). Everything that is integer,
  text or state-machine logic: the PCG random-number core, the OpenMC
  `chain.xml` depletion-chain reader and the chain's link lists, the
  per-event bookkeeping of neutron and photon histories, active-batch
  counting, the source-entropy mesh histogram, the lowest-index rule of
  cell lookup, loader decisions, and the material glyphs, palettes,
  framebuffers, text frames and legends of geometry previews. Each
  public function carries a contract; the `law_*` proof functions
  state properties that span functions.
* `app/` — ordinary Rust around it: the floating-point physics
  (cross-section tables, SVD/CP compression, Doppler broadening,
  kinematics, depletion matrices, transport drivers), file and HDF5
  I/O, the preview window, and thread-parallel batch APIs.
* `tests/` — runtime tests of the library.
