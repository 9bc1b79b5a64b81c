//! Router assembly for a JSON-RPC service, with a generated structural type
//! description of the procedures it serves.

pub mod builder;
pub mod describe;
pub mod router;
pub mod session;
