use lithophane_creator::stl::{stl_binary, TriangleBits, VectorBits};
use pk_stl::geometry::{Triangle, Vec3};
use pk_stl::StlModel;

fn vector(x: f32, y: f32, z: f32) -> VectorBits {
    VectorBits { x: x.to_bits(), y: y.to_bits(), z: z.to_bits() }
}

#[test]
fn empty_mesh_is_header_and_zero_count() {
    let bytes = stl_binary(&vec![]);
    assert_eq!(bytes.len(), 84);
    assert!(bytes.iter().all(|&b| b == 0));
}

#[test]
fn single_triangle_layout() {
    let tri = TriangleBits {
        normal: vector(0.0, 0.0, 1.0),
        v0: vector(0.0, 0.0, 0.0),
        v1: vector(1.0, 0.0, 0.0),
        v2: vector(0.0, 1.0, 0.0),
    };
    let bytes = stl_binary(&vec![tri]);
    assert_eq!(bytes.len(), 84 + 50);

    let mut expected: Vec<u8> = vec![0; 80];
    expected.extend_from_slice(&1u32.to_le_bytes());
    for value in [
        0.0f32, 0.0, 1.0, // normal
        0.0, 0.0, 0.0, // first vertex
        1.0, 0.0, 0.0, // second vertex
        0.0, 1.0, 0.0, // third vertex
    ] {
        expected.extend_from_slice(&value.to_le_bytes());
    }
    expected.extend_from_slice(&[0, 0]);
    assert_eq!(bytes, expected);
}

#[test]
fn matches_reference_serializer() {
    // The byte stream must agree with the established binary mesh writer
    // for the same triangles and an empty header.
    let triangles = vec![
        (
            [0.0f32, 0.0, 1.0],
            [[0.0f32, 0.0, 0.5], [1.0, 0.0, 0.5], [0.0, 1.0, 0.5]],
        ),
        (
            [0.0f32, -1.0, 0.0],
            [[2.5f32, 3.25, -1.0], [0.125, 7.0, 2.0], [-4.75, 0.0625, 9.5]],
        ),
    ];

    let ours: Vec<TriangleBits> = triangles
        .iter()
        .map(|(n, vs)| TriangleBits {
            normal: vector(n[0], n[1], n[2]),
            v0: vector(vs[0][0], vs[0][1], vs[0][2]),
            v1: vector(vs[1][0], vs[1][1], vs[1][2]),
            v2: vector(vs[2][0], vs[2][1], vs[2][2]),
        })
        .collect();

    let reference = StlModel {
        header: String::new(),
        triangles: triangles
            .iter()
            .map(|(n, vs)| Triangle {
                normal: Vec3::new(*n),
                vertices: [Vec3::new(vs[0]), Vec3::new(vs[1]), Vec3::new(vs[2])],
            })
            .collect(),
    };

    assert_eq!(stl_binary(&ours), reference.as_binary());
}
