//! Control of one or more 9x34 LED-matrix displays over a serial link: the
//! wire protocol, the pixel renderers, the named bitmap store and the
//! per-tick scheduling decisions, each with a machine-checked contract.

pub mod protocol;
pub mod render;
pub mod text;
pub mod presets;
pub mod session;
