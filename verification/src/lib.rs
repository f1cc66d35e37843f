//! Closures with an explicit environment.
//!
//! A closure here is a pair of a value, the environment, and a function that is handed the
//! environment together with the arguments of each call. Nothing else is captured, so the whole
//! state of a closure is that pair. The three types differ in how the function gets at the
//! environment, and with that in how often and through what kind of access they can be called:
//!
//! * [`MoveClosure`] gives the environment away by value and can be called once;
//! * [`RefClosure`] lends it out by shared reference and can be called any number of times
//!   without ever changing;
//! * [`RefMutClosure`] lends it out by mutable reference and can be called any number of times,
//!   each call finding what the one before it left.
//!
//! A closure adds nothing of its own to a call. It may be called with the arguments that its
//! function accepts together with the environment, and what a call returns, and leaves in the
//! environment, is what the function returns and leaves there. The contracts say so in terms of
//! the function's own precondition and postcondition.
mod move_closure;
mod ref_closure;
mod ref_mut_closure;

pub use move_closure::MoveClosure;
pub use ref_closure::RefClosure;
pub use ref_mut_closure::env_after;
pub use ref_mut_closure::RefMutClosure;
