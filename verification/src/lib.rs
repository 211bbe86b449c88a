//! A fixed-base Pedersen hash as a circuit gadget, with its visibility-driven
//! cost model.
//!
//! [`Pedersen`] hashes a sequence of [`Boolean`] wires to a [`Group`] wire in
//! a [`Circuit`], and [`PedersenCRH`] hashes plain bits to a plain group
//! element. Both work in any group that implements [`Curve`];
//! [`EdwardsPoint`] is one.

pub mod boolean;
pub mod circuit;
pub mod crh;
pub mod curve;
pub mod edwards;
pub mod field;
pub mod group;
pub mod laws;
pub mod mode;
pub mod model;
pub mod padding;
pub mod pedersen;

pub use crate::boolean::Boolean;
pub use crate::circuit::Circuit;
pub use crate::crh::{CapacityExceeded, PedersenCRH};
pub use crate::curve::Curve;
pub use crate::edwards::EdwardsPoint;
pub use crate::group::Group;
pub use crate::mode::Mode;
pub use crate::pedersen::Pedersen;
