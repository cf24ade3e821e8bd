//! A local file-exchange station's verified core: the shared session record
//! mutated by an HTTP server and a desktop window, the upload-acceptance
//! rules (size cap, filename sanitization, collision-safe naming), the
//! indexed download catalog, the index-page renderer, and the command queue
//! that carries server-side mutations onto the UI loop.
//!
//! All I/O, the HTTP routes and the widget wiring live outside this crate;
//! they hand plain values in and take plain values back.

pub mod assets;
pub mod bridge;
pub mod catalog;
pub mod config;
pub mod numbers;
pub mod render;
pub mod session;
pub mod text;
pub mod upload;
