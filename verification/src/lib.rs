//! A discrete 2D wave simulation on a square cell grid, together with the
//! spatial layout generators (square and hexagonal tilings) that map
//! simulation cells onto world-space instance positions.
//!
//! Every scalar that the original hardware would treat as an IEEE-754
//! binary32 number is carried here as its 32-bit pattern (`u32`), so that
//! the structural logic — buffer management, stencil neighbourhoods,
//! clipping, enumeration and serialization — is fully verified, while the
//! rounding arithmetic itself is delegated to a software float library
//! behind narrow trusted wrappers.

pub mod scalar;
pub mod simulation;
pub mod mesh_grid;
pub mod render_mode;
