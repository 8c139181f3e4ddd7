//! Keys identifying render pipelines.

use vstd::prelude::*;

verus! {

/// A trait representing a key for identifying render pipelines.  Keys
/// should be simple types, such as enums or newtypes around enums.
pub trait PipelineKey: 'static + Clone + Sized {

}

/// The render pipelines of the voxel renderer.
#[derive(Debug, Clone, Copy, PartialEq, Eq, Hash, Structural)]
pub enum RenderPipelines {
    /// Clears the frame before anything else draws.
    Clear,
    /// Draws the solid block geometry.
    SolidGeometry,
}

impl PipelineKey for RenderPipelines {

}

} // verus!
