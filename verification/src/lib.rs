//! A checksum engine: cyclic redundancy checks of 16, 32 and 64 bits over
//! arbitrary byte payloads, with a per-width polynomial resolver that accepts
//! either a recognized standard name or a decimal polynomial value.

pub mod decimal;
pub mod engine;
pub mod resolver;
