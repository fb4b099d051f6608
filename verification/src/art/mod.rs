//! Cover art: colour reduction, the sixel encoder, and the terminal facts
//! both graphics paths depend on.

pub mod cover;
pub mod quantize;
pub mod raster;
pub mod sixel;
pub mod terminal;
