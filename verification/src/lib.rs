//! Deciding what a build command compiles.
//!
//! A command names packages ([`packages`]) and targets ([`filter`]) of a
//! workspace ([`package`]), and a mode ([`mode`]).  What follows from that is
//! decided here: which targets are meant ([`select`]), which of them can be
//! built with the features at hand ([`resolve`]), and the units of work to do
//! ([`units`], [`generate`]).  The course of a whole build, with everything
//! that others must do for it, is a state machine ([`session`]).
//!
//! What holds of all this together is stated and proved in [`laws`] and
//! [`origins`] of the units of a build, in [`steps`] and [`runs`] of its course,
//! and at the end of the other modules, as functions whose names start with
//! `law_`.

pub mod distance;
pub mod error;
pub mod filter;
pub mod generate;
pub mod laws;
pub mod lists;
pub mod manifests;
pub mod mode;
pub mod options;
pub mod origins;
pub mod package;
pub mod packages;
pub mod resolve;
pub mod runs;
pub mod select;
pub mod session;
pub mod steps;
pub mod target;
pub mod text;
pub mod units;
