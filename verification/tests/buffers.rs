use bevy_amoeba::{Particle2dBuffer, SoftBodyCompute, SoftBodyInstanceData, SoftBodyVertex2dBuffer};

#[test]
fn resize_buffer_grows_with_zeros() {
    let mut data: Option<Vec<u8>> = Some(vec![1, 2, 3]);
    SoftBodyVertex2dBuffer::resize_buffer(2, 8, &mut data);
    let bytes = data.unwrap();
    assert_eq!(bytes.len(), 2 * 8 * 64);
    assert_eq!(&bytes[..3], &[1, 2, 3]);
    assert!(bytes[3..].iter().all(|&b| b == 0));
}

#[test]
fn resize_buffer_shrinks() {
    let mut data: Option<Vec<u8>> = Some((0..=255u8).cycle().take(1000).collect());
    SoftBodyVertex2dBuffer::resize_buffer(1, 8, &mut data);
    let bytes = data.unwrap();
    assert_eq!(bytes.len(), 512);
    assert_eq!(bytes[300], 44);
}

#[test]
fn resize_buffer_to_zero_instances() {
    let mut data: Option<Vec<u8>> = Some(vec![7; 10]);
    SoftBodyVertex2dBuffer::resize_buffer(0, 8, &mut data);
    assert_eq!(data, Some(vec![]));
}

#[test]
fn resize_buffer_without_contents() {
    let mut data: Option<Vec<u8>> = None;
    SoftBodyVertex2dBuffer::resize_buffer(3, 8, &mut data);
    assert_eq!(data, None);
}

#[test]
fn compute_counts_instances() {
    let mut compute = SoftBodyCompute::new();
    assert_eq!(compute.num_instances, 0);
    assert_eq!(compute.num_vertices_per_instance, SoftBodyVertex2dBuffer::NUM_VERTICES_PER_INSTANCE);
    assert_eq!(compute.add_instance(), 1);
    assert_eq!(compute.add_instance(), 2);
    assert_eq!(compute.remove_instance(), 1);
    assert_eq!(compute.num_instances, 1);
}

#[test]
fn compute_workgroups() {
    assert_eq!(SoftBodyCompute::workgroup_size(), (128, 1, 1));
    assert_eq!(SoftBodyCompute::workgroup_count(16384, 256), (128, 256, 1));
    assert_eq!(SoftBodyCompute::workgroup_count(64, 3), (0, 3, 1));
    assert_eq!(SoftBodyCompute::workgroup_count(300, 1), (2, 1, 1));
}

#[test]
fn constants() {
    assert_eq!(SoftBodyVertex2dBuffer::NUM_VERTICES_PER_INSTANCE, 64);
    assert_eq!(Particle2dBuffer::MAX_PARTICLES, 64);
    assert_eq!(SoftBodyInstanceData::default(), SoftBodyInstanceData { node_offset: 0, node_length: 0 });
}
