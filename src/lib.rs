//! Schema evolution for archived binary records.
//!
//! A record type evolves through a line of binary-compatible evolutions. Each
//! evolution appends fields to the previous one, so the archived bytes of a
//! later evolution start with the archived bytes of every earlier one. The
//! length of an archived value is therefore enough to tell which evolutions
//! it can be read as, and a probe over those bytes answers that question.
pub mod error;
pub mod version;
pub mod codec;
pub mod layout;
pub mod evolution;
pub mod records;
pub mod schema;
pub mod archive;
pub mod composite;
pub mod proto;
pub mod prefix;
pub mod pylon;
pub mod laws;
pub mod v1;
pub mod v2;

pub use error::Error;
pub use version::{ArchivedVersion, Version};
pub use layout::{pad, PadToAlign};
pub use evolution::{AnyProbe, Evolution, Evolving, Probe};
pub use proto::{Composite, Partial, Proto};
pub use archive::{ArchivedEvolution, ArchivedEvolutionResolver, Evolve};
