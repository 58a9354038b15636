use bevy_generative::mesh::{check_indices, Topology, VertexData};
use bevy_generative::planet::{
    append_face, build_planet, fits, generate_face, generate_planet, Direction,
};
use bevy_generative::util::gltf::Vertex;

/// A vertex that records what it was made from: the normal of its face as
/// its position, and its place and line as its texture coordinates.
fn marked(direction: Direction, x: u32, y: u32) -> VertexData<i32> {
    VertexData {
        position: direction.local_up(),
        normal: direction.local_up(),
        uv: [x as i32, y as i32],
        color: [x as i32, y as i32, 0, 255],
    }
}

#[test]
fn faces_come_in_a_fixed_order() {
    assert_eq!(Direction::of_face(0), Direction::Y);
    assert_eq!(Direction::of_face(1), Direction::NegY);
    assert_eq!(Direction::of_face(2), Direction::X);
    assert_eq!(Direction::of_face(3), Direction::NegX);
    assert_eq!(Direction::of_face(4), Direction::Z);
    assert_eq!(Direction::of_face(5), Direction::NegZ);
}

#[test]
fn axes_of_each_face() {
    assert_eq!(Direction::Y.local_up(), [0, 1, 0]);
    assert_eq!(Direction::Y.axis_a(), [1, 0, 0]);
    assert_eq!(Direction::Y.axis_b(), [0, 0, -1]);
    assert_eq!(Direction::NegY.local_up(), [0, -1, 0]);
    assert_eq!(Direction::NegY.axis_a(), [-1, 0, 0]);
    assert_eq!(Direction::NegY.axis_b(), [0, 0, -1]);
    assert_eq!(Direction::X.local_up(), [1, 0, 0]);
    assert_eq!(Direction::X.axis_a(), [0, 0, 1]);
    assert_eq!(Direction::X.axis_b(), [0, -1, 0]);
    assert_eq!(Direction::NegX.local_up(), [-1, 0, 0]);
    assert_eq!(Direction::NegX.axis_a(), [0, 0, -1]);
    assert_eq!(Direction::NegX.axis_b(), [0, -1, 0]);
    assert_eq!(Direction::Z.local_up(), [0, 0, 1]);
    assert_eq!(Direction::Z.axis_a(), [0, 1, 0]);
    assert_eq!(Direction::Z.axis_b(), [-1, 0, 0]);
    assert_eq!(Direction::NegZ.local_up(), [0, 0, -1]);
    assert_eq!(Direction::NegZ.axis_a(), [0, -1, 0]);
    assert_eq!(Direction::NegZ.axis_b(), [-1, 0, 0]);
}

#[test]
fn a_face_of_one_quad() {
    let face = generate_face(1, Direction::X, &marked);
    assert_eq!(face.positions, vec![[1, 0, 0]; 4]);
    assert_eq!(face.normals, vec![[1, 0, 0]; 4]);
    assert_eq!(face.uvs, vec![[0, 0], [1, 0], [0, 1], [1, 1]]);
    assert_eq!(face.colors[3], [1, 1, 0, 255]);
    assert_eq!(face.indices, vec![0, 3, 2, 0, 1, 3]);
    assert_eq!(face.topology, Topology::TriangleList);
}

#[test]
fn a_face_of_four_quads() {
    let face = generate_face(2, Direction::Z, &marked);
    assert_eq!(face.positions.len(), 9);
    assert_eq!(face.uvs[5], [2, 1]);
    assert_eq!(
        face.indices,
        vec![0, 4, 3, 0, 1, 4, 1, 5, 4, 1, 2, 5, 3, 7, 6, 3, 4, 7, 4, 8, 7, 4, 5, 8]
    );
}

#[test]
fn a_face_without_quads_is_one_vertex() {
    let face = generate_face(0, Direction::Y, &marked);
    assert_eq!(face.uvs, vec![[0, 0]]);
    assert_eq!(face.positions, vec![[0, 1, 0]]);
    assert!(face.indices.is_empty());
}

#[test]
fn appended_indices_are_raised_by_the_start() {
    let mut indices = vec![7];
    let next = append_face(&mut indices, &vec![0, 3, 2, 0, 1, 3], 4);
    assert_eq!(indices, vec![7, 4, 7, 6, 4, 5, 7]);
    assert_eq!(next, 8);
}

#[test]
fn an_empty_face_is_followed_by_start_one() {
    let mut indices = vec![7, 8];
    assert_eq!(append_face(&mut indices, &Vec::new(), 0), 1);
    assert_eq!(append_face(&mut indices, &Vec::new(), 5), 1);
    assert_eq!(indices, vec![7, 8]);
}

#[test]
fn planet_faces_are_stitched_without_shared_vertices() {
    let mesh = build_planet(10, false, marked);
    assert_eq!(mesh.positions.len(), 6 * 11 * 11);
    assert_eq!(mesh.normals.len(), 6 * 11 * 11);
    assert_eq!(mesh.uvs.len(), 6 * 11 * 11);
    assert_eq!(mesh.colors.len(), 6 * 11 * 11);
    assert_eq!(mesh.indices.len(), 6 * 10 * 10 * 6);
    assert_eq!(mesh.indices.iter().max(), Some(&(6 * 11 * 11 - 1)));
    assert_eq!(mesh.indices.iter().max(), Some(&725));
    assert_eq!(mesh.topology, Topology::TriangleList);
    assert!(check_indices(&mesh.indices, mesh.positions.len()));
    for face in 0..6usize {
        let part = &mesh.indices[face * 600..(face + 1) * 600];
        assert_eq!(*part.iter().min().unwrap() as usize, face * 121);
        assert_eq!(*part.iter().max().unwrap() as usize, face * 121 + 120);
    }
}

#[test]
fn planet_vertices_are_made_face_by_face() {
    let mesh = build_planet(1, false, marked);
    assert_eq!(mesh.positions.len(), 24);
    for face in 0..6usize {
        let direction = Direction::of_face(face);
        for (k, place) in [[0, 0], [1, 0], [0, 1], [1, 1]].iter().enumerate() {
            assert_eq!(mesh.positions[face * 4 + k], direction.local_up());
            assert_eq!(mesh.uvs[face * 4 + k], *place);
        }
    }
    assert_eq!(&mesh.indices[..6], &[0, 3, 2, 0, 1, 3]);
    assert_eq!(&mesh.indices[6..12], &[4, 7, 6, 4, 5, 7]);
    assert_eq!(&mesh.indices[30..], &[20, 23, 22, 20, 21, 23]);
    assert_eq!(mesh.indices.iter().max(), Some(&23));
}

#[test]
fn planet_wireframe_is_a_line_list() {
    let mesh = build_planet(2, true, marked);
    assert_eq!(mesh.topology, Topology::LineList);
    assert_eq!(mesh.indices.len(), 2 * (6 * 4 * 2) * 3);
    assert_eq!(&mesh.indices[..6], &[0, 4, 4, 3, 3, 0]);
    assert!(check_indices(&mesh.indices, mesh.positions.len()));
}

#[test]
fn planet_of_resolution_zero_has_six_vertices_and_no_indices() {
    let mesh = build_planet(0, false, marked);
    assert_eq!(
        mesh.positions,
        vec![[0, 1, 0], [0, -1, 0], [1, 0, 0], [-1, 0, 0], [0, 0, 1], [0, 0, -1]]
    );
    assert!(mesh.indices.is_empty());
}

#[test]
fn a_planet_fits_if_its_vertices_can_be_indexed() {
    assert!(fits(0));
    assert!(fits(10));
    assert!(fits(26753));
    assert!(!fits(26754));
    assert!(!fits(u32::MAX));
}

#[test]
fn a_pending_export_lists_the_planet_once() {
    let mut export = true;
    let planet = generate_planet(1, false, &mut export, marked);
    assert!(!export);
    assert_eq!(planet.mesh.indices, build_planet(1, false, marked).indices);
    let model = planet.model.unwrap();
    assert_eq!(model.len(), 36);
    assert_eq!(model[0], Vertex { position: [0, 1, 0], color: [0, 0, 0] });
    assert_eq!(model[1], Vertex { position: [0, 1, 0], color: [1, 1, 0] });
    assert_eq!(model[35], Vertex { position: [0, 0, -1], color: [1, 1, 0] });
    let again = generate_planet(1, true, &mut export, marked);
    assert!(!export);
    assert_eq!(again.model, None);
    assert_eq!(again.mesh.indices.len(), 72);
}
