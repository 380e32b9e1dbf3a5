//! A discrete-time simulation kernel for populations of interacting entities.
//!
//! Three models share one shape: a fixed collection of entities, one
//! interaction pass and one transition rule per tick.
//!
//! * [`disease`]: agents that carry a contagion, met pairwise on contact;
//!   [`tick`] runs one tick of them step by step, in the order of [`pairs`].
//! * [`grid`]: a toroidal lattice of cells with probabilistic local contagion.
//! * [`inverse_square_law`]: the particle store of an N-body integrator and
//!   its text-safe snapshot format.
//!
//! The kernel holds every discrete decision of a tick. Continuous geometry is
//! the caller's: it reports contacts and wall hits, and the kernel answers with
//! what follows from them.

pub mod census;
pub mod chance;
pub mod disease;
pub mod grid;
pub mod inverse_square_law;
pub mod pairs;
pub mod tick;
pub mod wire;

