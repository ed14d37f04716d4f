//! Protocol core of a compositor toolkit: a touch input router and the
//! popup surface lifecycle, as verified state machines over plain values.
//!
//! Wire objects are described by their identity, their owning client and
//! their negotiated version; every operation returns the messages it wants
//! sent, in order, so that the caller performs the actual I/O.
pub mod backend;
pub mod geometry;
pub mod popup;
pub mod serial;
pub mod touch;
pub mod touch_laws;
