//! A minimal on-chain record store: a fixed-layout binary codec for a
//! purchasable AI model listing, and the one state transition that creates
//! such a listing in a caller-supplied storage slot.

pub mod layout;
pub mod model;
pub mod codec;
pub mod transition;
