//! The decision logic of a multi-platform application bootstrap: the
//! control-flow policy of the window's event loop, and what the mobile
//! activity adapter does with each signal it polls.

pub mod control;
pub mod host;
