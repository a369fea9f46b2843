use dsge_vk::mesh::{mesh_data_valid, read_u32, MeshBuilder, VkVertex};

fn push_u32(out: &mut Vec<u8>, v: u32) {
    out.extend_from_slice(&v.to_le_bytes());
}

fn mesh_bytes(deformed: bool, two_layers: bool, indices: &[u32], vertices: u32) -> Vec<u8> {
    let mut out = Vec::new();
    out.extend_from_slice(&1.5f64.to_le_bytes());
    out.push(deformed as u8);
    out.push(two_layers as u8);
    push_u32(&mut out, indices.len() as u32);
    for i in indices {
        push_u32(&mut out, *i);
    }
    push_u32(&mut out, vertices);
    for v in 0..vertices {
        let words = 14 + if deformed { 3 } else { 0 } + if two_layers { 2 } else { 0 };
        for w in 0..words {
            push_u32(&mut out, 100 * v + w);
        }
    }
    out
}

#[test]
fn little_endian_words() {
    assert_eq!(read_u32(&[0x78, 0x56, 0x34, 0x12, 0xFF], 0), 0x1234_5678);
    assert_eq!(read_u32(&[0, 0xFF, 0xFF, 0xFF, 0xFF], 1), 0xFFFF_FFFF);
}

#[test]
fn plain_mesh_is_read() {
    let bytes = mesh_bytes(false, false, &[0, 1, 2], 3);
    assert!(mesh_data_valid(&bytes));
    let mut b = MeshBuilder::new("tri");
    assert_eq!(b.push_from_bytes(&bytes), (0, 3));
    assert_eq!(b.indices(), &vec![0, 1, 2]);
    assert_eq!(b.vertices().len(), 3);
    let v = b.vertices()[1];
    assert_eq!(v.v_pos, [100, 101, 102]);
    assert_eq!(v.v_nor, [103, 104, 105]);
    assert_eq!(v.v_tex1, [106, 107]);
    assert_eq!(v.v_bin, [108, 109, 110]);
    assert_eq!(v.v_tan, [111, 112, 113]);
    assert_eq!(v.v_grp, [0, 0, 0]);
    assert_eq!(v.v_tex2, [0, 0]);
    assert_eq!(b.push_from_bytes(&bytes), (3, 3));
    assert_eq!(b.indices(), &vec![0, 1, 2, 3, 4, 5]);
}

#[test]
fn deformed_two_layer_mesh_is_read() {
    let bytes = mesh_bytes(true, true, &[2, 0], 2);
    assert!(mesh_data_valid(&bytes));
    let mut b = MeshBuilder::new("skin");
    assert_eq!(b.push_from_bytes(&bytes), (0, 2));
    let v = b.vertices()[1];
    assert_eq!(v.v_grp, [114, 115, 116]);
    assert_eq!(v.v_tex2, [117, 118]);
    assert_eq!(b.indices(), &vec![2, 0]);
}

#[test]
fn broken_mesh_data_is_refused() {
    let bytes = mesh_bytes(false, true, &[0, 1, 2], 3);
    assert!(!mesh_data_valid(&bytes[..bytes.len() - 1]));
    assert!(!mesh_data_valid(&bytes[..12]));
    let mut flagged = bytes.clone();
    flagged[8] = 2;
    assert!(!mesh_data_valid(&flagged));
    let mut longer = bytes.clone();
    longer.push(7);
    assert!(mesh_data_valid(&longer));
}

#[test]
fn triangles_index_their_own_vertices() {
    let zero = VkVertex { v_pos: [0; 3], v_nor: [0; 3], v_bin: [0; 3], v_tan: [0; 3], v_tex1: [0; 2], v_tex2: [0; 2], v_grp: [0; 3] };
    let mut b = MeshBuilder::new("quad");
    b.push_triangle(zero, zero, zero).push_triangle(zero, zero, zero);
    assert_eq!(b.indices(), &vec![0, 1, 2, 3, 4, 5]);
    assert_eq!(b.vertices().len(), 6);
}

#[test]
fn push_checks_index_range() {
    let bytes = mesh_bytes(false, false, &[0xFFFF_FFFF], 1);
    let mut b = MeshBuilder::new("edge");
    assert!(b.check_push(&bytes));
    b.push_from_bytes(&bytes);
    assert!(!b.check_push(&bytes));
    assert!(!b.check_push(&bytes[..20]));
    let small = mesh_bytes(false, false, &[0], 1);
    assert!(b.check_push(&small));
}
