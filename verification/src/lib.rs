//! Integer, text and state-machine layer of a Monte Carlo / tensor
//! compression toolkit for reactor physics:
//!
//! * [`rng`]: the PCG-XSH-RR 64/32 generator behind every sampler;
//! * [`decay`], [`chain_xml`], [`xml`], [`text`]: depletion chains and
//!   the OpenMC `chain.xml` reader;
//! * [`transport`], [`tally`], [`photon`]: run configurations and the
//!   per-event bookkeeping of neutron and photon histories, the fission
//!   source resampling index and entropy mesh, active-batch counting;
//! * [`loader`]: what the nuclide loader reads and how it names things;
//! * [`preview`]: material glyphs, palettes, framebuffers, text frames
//!   and legends of geometry slices;
//! * [`cell_search`]: the lowest-index rule of cell lookup;
//! * [`error`]: loader errors.
pub mod error;
pub mod rng;
pub mod text;
pub mod xml;
pub mod decay;
pub mod chain_xml;
pub mod preview;
pub mod glyph_families;
pub mod transport;
pub mod tally;
pub mod loader;
pub mod photon;
pub mod cell_search;

pub use rng::Pcg64;
