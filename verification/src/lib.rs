//! Catalog and packaging services for a capture pipeline's artifacts.
//!
//! The crate manages the files a recording pipeline produces: a confined
//! file catalog over a video root and a frame root, a catalog of
//! frame-image directories, a packaging engine that bundles a source
//! directory into a ZIP archive under an explicit task lifecycle, and a
//! disk-quota guard. Beside them stand the small state machines of the
//! surrounding services: a service monitor, a logger configuration and a
//! video recorder.
//!
//! Filesystem reads go through thin trusted wrappers over `walkdir` and
//! the platform's free-space query; filesystem mutation is decided here
//! (confinement first, then the action) and performed by the caller.

use vstd::prelude::*;

pub mod archive;
pub mod clock;
pub mod disk;
pub mod error;
pub mod file_manager;
pub mod frame_manager;
pub mod fs_scan;
pub mod logger;
pub mod package;
pub mod paths;
pub mod service;
pub mod video;

verus! {

/// Clamps a mathematical integer into the `u64` range, as the saturating
/// additions of the size accounting do.
pub open spec fn clamp_u64(x: int) -> int {
    if x > u64::MAX as int {
        u64::MAX as int
    } else {
        x
    }
}

} // verus!
