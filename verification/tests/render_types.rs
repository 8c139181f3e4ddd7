use voxelcore::buf::Index16;
use voxelcore::buf::Index32;
use voxelcore::buf::Uniform;
use voxelcore::render::RenderPipelines;

#[test]
fn index_elements_hold_their_value() {
    assert_eq!(Index16(7).value(), 7);
    assert_eq!(Index32(70000).value(), 70000);
    assert_eq!(Index16(7), Index16(7));
    assert_ne!(Index32(1), Index32(2));
}

#[test]
fn uniform_wraps_a_value() {
    let u = Uniform([1.0f32, 2.0, 3.0, 4.0]);
    assert_eq!(u.0.len(), 4);
}

#[test]
fn pipeline_keys_are_distinct() {
    assert_ne!(RenderPipelines::Clear, RenderPipelines::SolidGeometry);
    assert_eq!(RenderPipelines::Clear, RenderPipelines::Clear.clone());
}
