use render_core::push_constants::{
    model_range, opacity_range, PushConstants, PushRange, ShaderStage, BLOCK_SIZE, MODEL_OFFSET, MODEL_SIZE,
    OPACITY_OFFSET, OPACITY_SIZE,
};

fn sample_model() -> [u8; 64] {
    let mut model = [0u8; 64];
    for (i, byte) in model.iter_mut().enumerate() {
        *byte = (i as u8).wrapping_mul(3).wrapping_add(1);
    }
    model
}

#[test]
fn model_fills_the_first_64_bytes_and_opacity_the_next_4() {
    assert_eq!(model_range(), PushRange { stage: ShaderStage::Vertex, offset: 0, size: 64 });
    assert_eq!(opacity_range(), PushRange { stage: ShaderStage::Fragment, offset: 64, size: 4 });
    assert_eq!((MODEL_OFFSET, MODEL_SIZE, OPACITY_OFFSET, OPACITY_SIZE, BLOCK_SIZE), (0, 64, 64, 4, 68));
    assert_eq!(MODEL_OFFSET + MODEL_SIZE, OPACITY_OFFSET);
    assert_eq!(OPACITY_OFFSET + OPACITY_SIZE, BLOCK_SIZE);
}

#[test]
fn new_block_is_zero() {
    let block = PushConstants::new();
    assert_eq!(block.to_bytes(), [0u8; 68]);
    assert_eq!(block.model(), [0u8; 64]);
    assert_eq!(block.opacity(), [0u8; 4]);
}

#[test]
fn writing_the_model_leaves_the_opacity() {
    let mut block = PushConstants::new();
    block.set_opacity(&[9, 8, 7, 6]);
    block.set_model(&sample_model());
    assert_eq!(block.model(), sample_model());
    assert_eq!(block.opacity(), [9, 8, 7, 6]);
    let bytes = block.to_bytes();
    assert_eq!(&bytes[..64], &sample_model()[..]);
    assert_eq!(&bytes[64..], &[9, 8, 7, 6]);
}

#[test]
fn writing_the_opacity_leaves_the_model() {
    let mut block = PushConstants::new();
    block.set_model(&sample_model());
    block.set_opacity(&0.25f32.to_ne_bytes());
    assert_eq!(block.model(), sample_model());
    assert_eq!(f32::from_ne_bytes(block.opacity()), 0.25);
    block.set_opacity(&1.0f32.to_ne_bytes());
    assert_eq!(block.model(), sample_model());
    assert_eq!(f32::from_ne_bytes(block.opacity()), 1.0);
}

#[test]
fn order_of_the_two_writes_does_not_matter() {
    let mut a = PushConstants::new();
    a.set_model(&sample_model());
    a.set_opacity(&[1, 2, 3, 4]);
    let mut b = PushConstants::new();
    b.set_opacity(&[1, 2, 3, 4]);
    b.set_model(&sample_model());
    assert_eq!(a, b);
}

#[test]
fn block_has_68_bytes_after_every_write() {
    let mut block = PushConstants::new();
    assert_eq!(block.to_bytes().len(), 68);
    block.set_model(&sample_model());
    assert_eq!(block.to_bytes().len(), 68);
    block.set_opacity(&[1, 1, 1, 1]);
    assert_eq!(block.to_bytes().len(), 68);
    assert_eq!(block.to_bytes().len() as u32, BLOCK_SIZE);
}
