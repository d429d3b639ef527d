//! Reactive cells whose readers are found by watching them read.
//!
//! A [`reactive::Reactive`] cell holds a value and tells its observers of every
//! read and of every write that changes the value. A [`scope::Scope`] uses those
//! two reports to learn which effect reads which cell, and runs an effect again
//! whenever a cell that it read has changed.
//!
//! Cells and scopes are shared handles guarded by locks. A lock is released by
//! the function that took it, never by unwinding: a callback that panics while
//! a lock is held leaves that lock held.
pub mod dependencies;
pub mod effect;
pub mod held;
mod identity;
pub mod laws;
pub mod observer;
pub mod reactive;
pub mod scope;
