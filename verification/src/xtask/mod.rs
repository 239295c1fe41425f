//! Build and release helpers: target platforms, packaging stages, and the
//! manifest and version rules used when preparing a release.
pub mod release;
pub mod package;
pub mod service;
pub mod linux;
pub mod windows;
