//! What a build of the assets is configured with, and what an animation is made of.

use vstd::prelude::*;

verus! {

/// Build pipeline configuration.
#[derive(Clone)]
pub struct BuildSettings {
    /// Directory containing input asset files.
    pub asset_import_path: String,
    /// Directory where generated Rust files are written. If it is "src", no `mod.rs` is
    /// generated.
    pub asset_export_path: String,
    /// Clears the export directory before generating files. Dangerous paths are refused.
    pub clear_export_path: bool,
    /// Forces regeneration of all files regardless of timestamps.
    pub force_reprocess: bool,
}

/// Animation definition referencing frames from a strip.
pub struct Anim {
    /// Animation identifier.
    pub name: String,
    /// Playback speed in frames per second.
    pub fps: u8,
    /// If true, the animation loops.
    pub repeat: bool,
    /// Frame indices into the strip.
    pub frames: Vec<u8>,
    /// Name of the source animation strip.
    pub strip_name: String,
}

} // verus!
