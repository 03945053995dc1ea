//! A compact self-describing binary serialization framework and the two
//! tools built on it: records of scalars, strings, optional values, nested
//! records and sequences are encoded against a declarative field schema and
//! reconstructed from it, with the wire layout, the reader and the laws of
//! the codec stated and proved.

pub mod binary;
pub mod builder;
pub mod check;
pub mod deserialize;
pub mod error;
pub mod installer;
pub mod laws;
pub mod modbuild;
pub mod packdata;
pub mod types;
pub mod wire;
