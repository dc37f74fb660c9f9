//! What holds of the library as a whole, stated over the models that the
//! functions' contracts speak of.
pub mod contexts;
pub mod cookies;
pub mod images;
pub mod jars;
pub mod models;
pub mod origins;
pub mod portable;
pub mod protocol;
pub mod rendering;
pub mod requests;
pub mod session;
pub mod storage;
pub mod text;
