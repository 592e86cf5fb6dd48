//! Combinators for chaining fallible operations over optional values and
//! collections.
//!
//! [`FallibleMapExt::try_map`] maps a function that may fail over the contents
//! of an `Option`, and [`FlipResultExt::flip`] turns a nesting inside out:
//! an `Option` of `Result` into a `Result` of `Option`, a `Vec` of `Result`
//! into a `Result` of `Vec`, and a `Vec` of `Option` into an `Option` of `Vec`.
//! Both stop at the first failure (or at the first missing value) and hand it
//! on unchanged.

pub mod chain;
pub mod fallible_map;
pub mod flip;

pub use fallible_map::FallibleMapExt;
pub use flip::FlipResultExt;
