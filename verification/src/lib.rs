//! The discrete core of a musical toy: a circle of notes played from the
//! keyboard, and a sampled string that vibrates under the chord being held.
//!
//! Everything here works on integers, booleans and opaque sample values, so
//! that every function carries a contract that is proved.  Arithmetic on the
//! samples themselves is supplied by the caller.

pub mod keyboard;
pub mod note;
pub mod sound;
pub mod string;
