//! A busy-waiting mutual-exclusion primitive: a spin lock over one boolean
//! flag, guarding an arbitrary payload value.
//!
//! `mutex` holds the lock type and the two-phase acquire policy; `protocol`
//! holds the concurrent protocol as a transition system, with proofs of
//! mutual exclusion, visibility, absence of lost updates, and the identity
//! of an acquire/release cycle.

pub mod mutex;
pub mod protocol;

pub use mutex::LOCKED;
pub use mutex::Mutex;
pub use mutex::Observation;
pub use mutex::SpinStep;
pub use mutex::UNLOCKED;
pub use mutex::next_spin_step;
