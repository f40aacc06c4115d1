use bevy_amoeba::{PackedBuffers, SoftBody, SoftBodyCompute, SoftBodyInstanceData};

fn instance(node_offset: u32, node_length: u32) -> SoftBodyInstanceData {
    SoftBodyInstanceData { node_offset, node_length }
}

#[test]
fn update_buffers_packs_bodies_in_order() {
    let bodies: Vec<Vec<Option<u32>>> = vec![
        vec![Some(10), None, Some(11)],
        vec![],
        vec![None],
        vec![Some(20)],
    ];
    let mut compute = SoftBodyCompute::new();
    let PackedBuffers { nodes, instances } = SoftBody::update_buffers(&mut compute, &bodies, 0);
    assert_eq!(compute.num_instances, 4);
    assert_eq!(compute.num_vertices_per_instance, 64);
    assert_eq!(nodes.len(), SoftBody::MAX_NODES);
    assert_eq!(&nodes[..4], &[10, 11, 20, 0]);
    assert!(nodes[3..].iter().all(|&n| n == 0));
    assert_eq!(instances.len(), SoftBody::MAX_INSTANCES);
    assert_eq!(
        &instances[..5],
        &[instance(0, 2), instance(2, 0), instance(2, 0), instance(2, 1), instance(0, 0)]
    );
    assert!(instances[4..].iter().all(|&i| i == SoftBodyInstanceData::default()));
}

#[test]
fn update_buffers_ranges_tile_the_nodes() {
    let bodies: Vec<Vec<Option<u32>>> = (0..10u32)
        .map(|b| (0..b).map(|k| if k % 3 == 0 { None } else { Some(100 * b + k) }).collect())
        .collect();
    let mut compute = SoftBodyCompute::new();
    let packed = SoftBody::update_buffers(&mut compute, &bodies, u32::MAX);
    let mut expected_offset = 0u32;
    for (b, body) in bodies.iter().enumerate() {
        let resolved: Vec<u32> = body.iter().filter_map(|n| *n).collect();
        let inst = packed.instances[b];
        assert_eq!(inst.node_offset, expected_offset);
        assert_eq!(inst.node_length as usize, resolved.len());
        let start = inst.node_offset as usize;
        assert_eq!(&packed.nodes[start..start + resolved.len()], &resolved[..]);
        expected_offset += inst.node_length;
    }
    assert_eq!(packed.nodes[expected_offset as usize], u32::MAX);
}

#[test]
fn update_buffers_with_no_bodies() {
    let bodies: Vec<Vec<Option<u8>>> = vec![];
    let mut compute = SoftBodyCompute::new();
    compute.num_instances = 9;
    let packed = SoftBody::update_buffers(&mut compute, &bodies, 7);
    assert_eq!(compute.num_instances, 0);
    assert!(packed.nodes.iter().all(|&n| n == 7));
    assert!(packed.instances.iter().all(|&i| i == instance(0, 0)));
}

#[test]
fn update_buffers_fills_the_buffers_exactly() {
    let mut bodies: Vec<Vec<Option<u16>>> = vec![vec![]; 255];
    bodies.push(vec![Some(3); 1024]);
    let mut compute = SoftBodyCompute::new();
    assert!(SoftBody::fits_buffers(&bodies));
    let packed = SoftBody::update_buffers(&mut compute, &bodies, 0);
    assert_eq!(compute.num_instances, 256);
    assert!(packed.nodes.iter().all(|&n| n == 3));
    assert_eq!(packed.instances[255], instance(0, 1024));
}

#[test]
fn fits_buffers_limits() {
    let few: Vec<Vec<Option<u8>>> = vec![vec![Some(1), None]; 3];
    assert!(SoftBody::fits_buffers(&few));
    let too_many_bodies: Vec<Vec<Option<u8>>> = vec![vec![]; 257];
    assert!(!SoftBody::fits_buffers(&too_many_bodies));
    let too_many_nodes: Vec<Vec<Option<u8>>> = vec![vec![Some(1); 512], vec![Some(1); 513]];
    assert!(!SoftBody::fits_buffers(&too_many_nodes));
    let unresolved_do_not_count: Vec<Vec<Option<u8>>> = vec![vec![None; 2000], vec![Some(1); 1024]];
    assert!(SoftBody::fits_buffers(&unresolved_do_not_count));
}

#[test]
fn add_then_remove_restores_vertex_buffer() {
    let mut compute = SoftBodyCompute::new();
    let mut data: Option<Vec<u8>> = Some(vec![]);
    SoftBody::on_add(&mut compute, &mut data, 8);
    assert_eq!(compute.num_instances, 1);
    assert_eq!(data.as_ref().unwrap().len(), 8 * 64);
    data.as_mut().unwrap()[5] = 9;
    let before = data.clone();
    SoftBody::on_add(&mut compute, &mut data, 8);
    assert_eq!(compute.num_instances, 2);
    assert_eq!(data.as_ref().unwrap().len(), 2 * 8 * 64);
    assert!(data.as_ref().unwrap()[512..].iter().all(|&b| b == 0));
    SoftBody::on_remove(&mut compute, &mut data, 8);
    assert_eq!(compute.num_instances, 1);
    assert_eq!(data, before);
}

#[test]
fn remove_then_add_zeroes_last_instance() {
    let mut compute = SoftBodyCompute::new();
    compute.num_instances = 2;
    let mut data: Option<Vec<u8>> = Some(vec![1; 2 * 4 * 64]);
    SoftBody::on_remove(&mut compute, &mut data, 4);
    assert_eq!(compute.num_instances, 1);
    assert_eq!(data, Some(vec![1; 4 * 64]));
    SoftBody::on_add(&mut compute, &mut data, 4);
    let bytes = data.unwrap();
    assert_eq!(bytes.len(), 2 * 4 * 64);
    assert!(bytes[..256].iter().all(|&b| b == 1));
    assert!(bytes[256..].iter().all(|&b| b == 0));
}

#[test]
fn buffer_without_contents_stays_without() {
    let mut compute = SoftBodyCompute::new();
    let mut data: Option<Vec<u8>> = None;
    SoftBody::on_add(&mut compute, &mut data, 8);
    assert_eq!(compute.num_instances, 1);
    assert_eq!(data, None);
}
