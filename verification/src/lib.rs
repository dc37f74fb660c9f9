//! Browser session state and page rendering decisions, verified.

pub mod cdp;
pub mod context;
pub mod cookies;
pub mod domains;
pub mod items;
pub mod json;
pub mod laws;
pub mod origin;
pub mod raster;
pub mod render;
pub mod scale;
pub mod state;
pub mod storage;
pub mod text;
