//! Small, verified building blocks for demonstrating synchronisation
//! strategies: counters, a shared collection, a lazily seeded registry, and
//! the runner and harness that drive them, next to a handful of elementary
//! data-modelling helpers.
//!
//! Every strategy is an explicitly constructed state object. The operations
//! that change it take `&mut self`: exclusive access is a fact of the type
//! system there, and the contracts say exactly what each operation does.
//! How concurrent workers may interleave is modelled by schedules
//! (`schedule`, `race`, `runner`), so that what holds of every interleaving
//! can be stated and proved. `shared` puts the same strategies behind the
//! primitives that let real threads use them at once: an atomic register, a
//! mutex, a read-write lock.

pub mod arithmetic;
pub mod collection;
pub mod counter;
pub mod directory;
pub mod enumerations;
pub mod fork_join;
pub mod greeting;
pub mod harness;
pub mod race;
pub mod registry;
pub mod roster;
pub mod runner;
pub mod schedule;
pub mod shared;
pub mod users;
