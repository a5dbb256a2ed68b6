//! Verified core of the `pdfmaker` command-line host: the pseudo-random
//! generator behind `getRandomValues`, wasm-bindgen import resolution, the
//! command-line grammar and the choice of output file names.

pub mod rng;
pub mod text;
pub mod bindgen;
pub mod error;
pub mod paper;
pub mod cli;
pub mod paths;
pub mod host;
