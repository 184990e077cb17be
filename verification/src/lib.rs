//! Pure physical-chemistry calculation support: decoding and validation of
//! request buffers, species lookup and stoichiometric resolution, kinetic
//! order dispatch, and rendering/encoding of outbound records.
//!
//! Every quantity the formulas operate on is an IEEE-754 double at the
//! boundary; this crate verifies everything around that arithmetic: which
//! byte buffers decode to which typed inputs, which lookups succeed, which
//! kinetic orders are supported, and exactly which bytes frame a result.

pub mod decode;
pub mod error;
pub mod kinetics;
pub mod numfmt;
pub mod table;
pub mod wire;
