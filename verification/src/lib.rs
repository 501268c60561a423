//! ESC/POS thermal printer protocol: device classification, text encoding
//! in code page 860 and `GS v 0` raster encoding.

pub mod text;
pub mod raster;
pub mod codepage;
pub mod device;
pub mod discovery;
pub mod payload;
pub mod number;
pub mod cli;
pub mod tool;
pub mod probe;
pub mod profile;
pub mod backend;
pub mod document;
pub mod preview;
