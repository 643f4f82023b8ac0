//! Reference-counted sharing with weak handles, a blocking mutex and a spin
//! lock, each described as the atomic steps that threads take on a few shared
//! words, and proved against those steps.

pub mod arc;
pub mod mutex;
pub mod counting;
pub mod spin_lock;
