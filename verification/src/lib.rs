//! A library for reading Training Center XML (TCX) activity files into a
//! typed in-memory model, deriving per-lap heart-rate statistics, and
//! rendering the model as JSON text.
//!
//! The model and its entry points live in [`tcx`]: [`read`] parses one
//! document, `calc_heartrates` fills in the derived heart-rate fields,
//! and `to_json` renders a parsed database. The XML reader in [`xml`]
//! turns text into an element tree; the mapping rules in [`mapper`] give
//! that tree its meaning and carry the laws the mapping obeys; [`json`]
//! holds the rendering; [`text`] and [`time`] hold the character-level
//! helpers and the timestamp normalization.

pub use crate::tcx::read;

pub mod text;
pub mod xml;
pub mod tcx;
pub mod mapper;
pub mod time;
pub mod json;
