//! Asset delivery beneath an LDraw model viewer: a part store built from a
//! packaged archive, the loader bridge that hands part bytes to a renderer,
//! a parsed-document cache, and the state machine that drives the render loop.
pub mod archive;
pub mod bridge;
pub mod cache;
pub mod names;
pub mod render_loop;
pub mod store;
