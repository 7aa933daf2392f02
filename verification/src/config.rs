//! Render configuration.

use vstd::prelude::*;

verus! {

/// What a render run needs: where the scene description lives, where the
/// output goes, the output size, the supersampling factor, and the
/// reflection depth bound.  Reading and parsing a configuration file is the
/// surrounding application's concern.
pub struct Config {
    pub scene_config_path: String,
    pub output_file: String,
    pub width: u32,
    pub height: u32,
    pub supersampling: u32,
    pub reflection_depth: u16,
}

} // verus!
