use typey_birb::aabb::{collide_aabb, Aabb, Vec3};
use typey_birb::cylinder::{Cylinder, CylinderPart};
use typey_birb::ground::{
    ground_mesh, grid_triangles, GROUND_HEIGHT_HIGH, GROUND_HEIGHT_LOW, GROUND_LENGTH,
    GROUND_VERTICES_X, GROUND_VERTICES_Z, GROUND_WIDTH,
};
use rand::rngs::StdRng;
use rand::SeedableRng;

fn seeded_rng(seed: u64) -> StdRng {
    StdRng::seed_from_u64(seed)
}

fn cube(min: (i64, i64, i64), max: (i64, i64, i64)) -> Aabb {
    Aabb::new(Vec3::new(min.0, min.1, min.2), Vec3::new(max.0, max.1, max.2))
}

#[test]
fn overlapping_boxes_collide_both_ways() {
    let a = cube((0, 0, 0), (10, 10, 10));
    let b = cube((5, 5, 5), (15, 15, 15));
    assert!(collide_aabb(&a, &b));
    assert!(collide_aabb(&b, &a));
}

#[test]
fn touching_boxes_do_not_collide() {
    let a = cube((0, 0, 0), (10, 10, 10));
    let b = cube((10, 0, 0), (20, 10, 10));
    assert!(!collide_aabb(&a, &b));
    assert!(!collide_aabb(&b, &a));
}

#[test]
fn boxes_apart_on_one_axis_do_not_collide() {
    let a = cube((0, 0, 0), (10, 10, 10));
    let b = cube((0, 12, 0), (10, 20, 10));
    assert!(!collide_aabb(&a, &b));
    let c = cube((0, 0, -30), (10, 10, -1));
    assert!(!collide_aabb(&a, &c));
}

#[test]
fn symmetry_on_mixed_pairs() {
    let boxes = [
        cube((0, 0, 0), (10, 10, 10)),
        cube((9, 9, 9), (11, 11, 11)),
        cube((-5, 2, 3), (0, 4, 5)),
        cube((-100, -100, -100), (100, 100, 100)),
    ];
    for a in boxes.iter() {
        for b in boxes.iter() {
            assert_eq!(collide_aabb(a, b), collide_aabb(b, a));
        }
    }
}

#[test]
fn from_center_half_extents_gives_corners() {
    let b = Aabb::from_center_half_extents(Vec3::new(1, 2, 3), Vec3::new(4, 5, 6));
    assert_eq!(b.min, Vec3::new(-3, -3, -3));
    assert_eq!(b.max, Vec3::new(5, 7, 9));
    let moved = b.translated(Vec3::new(10, 0, -1));
    assert_eq!(moved.min, Vec3::new(7, -3, -4));
    assert_eq!(moved.max, Vec3::new(15, 7, 8));
}

#[test]
fn cylinder_counts_for_four_sided_one_segment() {
    let c = Cylinder { radius: 1000, height: 1000, resolution: 4, segments: 1 };
    let m = c.mesh();
    assert_eq!(m.vertices.len(), 18);
    assert_eq!(m.indices.len(), 36);
    assert!(m.indices.iter().all(|&i| (i as usize) < m.vertices.len()));
    assert_eq!(m.indices.len() % 3, 0);
}

#[test]
fn cylinder_layout_of_vertices_and_indices() {
    let c = Cylinder { radius: 1000, height: 1000, resolution: 4, segments: 1 };
    let m = c.mesh();
    assert_eq!(m.vertices[0].part, CylinderPart::Side);
    assert_eq!((m.vertices[6].ring, m.vertices[6].step), (1, 1));
    assert_eq!(m.vertices[10].part, CylinderPart::TopCap);
    assert_eq!(m.vertices[10].ring, 1);
    assert_eq!(m.vertices[14].part, CylinderPart::BottomCap);
    assert_eq!(m.vertices[17].step, 3);
    assert_eq!(&m.indices[0..6], &[0, 5, 1, 5, 6, 1]);
    assert_eq!(&m.indices[24..30], &[10, 12, 11, 10, 13, 12]);
    assert_eq!(&m.indices[30..36], &[14, 15, 16, 14, 16, 17]);
}

#[test]
fn default_cylinder_counts() {
    let c = Cylinder::default();
    assert_eq!((c.radius, c.height, c.resolution, c.segments), (500, 1000, 16, 4));
    let m = c.mesh();
    assert_eq!(m.vertices.len(), 2 * 16 + 5 * 17);
    assert_eq!(m.indices.len(), 3 * (2 * 4 * 16 + 2 * 14));
}

#[test]
fn terrain_ends_lie_flat() {
    let mut rng = seeded_rng(7);
    let m = ground_mesh(
        (GROUND_LENGTH, GROUND_WIDTH),
        (GROUND_VERTICES_X, GROUND_VERTICES_Z),
        &mut rng,
    );
    let nz = GROUND_VERTICES_Z as usize;
    let nx = GROUND_VERTICES_X as usize;
    assert_eq!(m.grid.len(), nx * nz);
    for (k, p) in m.grid.iter().enumerate() {
        let column = k / nz;
        if column == 0 || column == nx - 1 {
            assert_eq!(p.y, 0);
        } else {
            assert!(GROUND_HEIGHT_LOW <= p.y && p.y < GROUND_HEIGHT_HIGH);
        }
    }
    assert_eq!(m.grid[0].x, -30_000);
    assert_eq!(m.grid[0].z, -20_000);
    assert_eq!(m.grid[nx * nz - 1].x, 30_000);
    assert_eq!(m.grid[nx * nz - 1].z, 20_000);
    for (n, p) in m.positions.iter().enumerate() {
        let column = m.indices[n] as usize / nz;
        if column == 0 || column == nx - 1 {
            assert_eq!(p.y, 0);
        }
    }
}

#[test]
fn terrain_is_flat_shaded() {
    let mut rng = seeded_rng(11);
    let m = ground_mesh((6_000, 4_000), (3, 2), &mut rng);
    assert_eq!(m.indices, vec![0, 1, 2, 2, 1, 3, 2, 3, 4, 4, 3, 5]);
    assert_eq!(m.positions.len(), 12);
    assert_eq!(m.normals.len(), 12);
    for (n, p) in m.positions.iter().enumerate() {
        assert_eq!(*p, m.grid[m.indices[n] as usize]);
    }
    // each corner carries the cross product of its triangle's edges
    let a = m.positions[0];
    let b = m.positions[1];
    let c = m.positions[2];
    let (ux, uy, uz) = (b.x - a.x, b.y - a.y, b.z - a.z);
    let (vx, vy, vz) = (c.x - a.x, c.y - a.y, c.z - a.z);
    let expected = Vec3::new(uy * vz - uz * vy, uz * vx - ux * vz, ux * vy - uy * vx);
    assert_eq!(m.normals[0], expected);
    assert_eq!(m.normals[1], expected);
    assert_eq!(m.normals[2], expected);
    assert_eq!(m.grid[0], Vec3::new(-3_000, 0, -2_000));
    assert_eq!(m.grid[1], Vec3::new(-3_000, 0, 2_000));
}

#[test]
fn flat_quad_normal_points_up() {
    let grid = vec![
        Vec3::new(0, 0, 0),
        Vec3::new(0, 0, 10),
        Vec3::new(10, 0, 0),
    ];
    let (positions, normals) = typey_birb::ground::flat_shade(&grid, &vec![0, 1, 2]);
    assert_eq!(positions, grid);
    // (0,0,10) x (10,0,0) = (0, 100, 0)
    assert_eq!(normals[0], Vec3::new(0, 100, 0));
}

#[test]
fn grid_triangle_count() {
    let idx = grid_triangles(GROUND_VERTICES_X, GROUND_VERTICES_Z);
    assert_eq!(idx.len(), 6 * 29 * 19);
    assert!(idx.iter().all(|&i| i < GROUND_VERTICES_X * GROUND_VERTICES_Z));
}

#[test]
fn ground_bundle_places_a_standard_strip() {
    let mut rng = seeded_rng(3);
    let b = typey_birb::ground::GroundBundle::new(4, 60_000, &mut rng);
    assert_eq!(b.ground.id, 4);
    assert_eq!(b.ground.x, 60_000);
    assert_eq!(b.mesh.grid.len(), 600);
    assert_eq!(b.mesh.positions.len(), 6 * 29 * 19);
}

#[test]
fn terrain_faces_point_up() {
    let mut rng = seeded_rng(21);
    let m = ground_mesh(
        (GROUND_LENGTH, GROUND_WIDTH),
        (GROUND_VERTICES_X, GROUND_VERTICES_Z),
        &mut rng,
    );
    assert!(m.normals.iter().all(|n| n.y > 0));
    let small = ground_mesh((29, 19), (30, 20), &mut rng);
    assert!(small.normals.iter().all(|n| n.y > 0));
}

#[test]
fn obstacle_meshes_are_full_pipes() {
    let g = typey_birb::obstacle::build_obstacle_group(0, 0, 2_000);
    let (bottom, top, flange) = g.meshes();
    for m in [&bottom, &top, &flange] {
        assert_eq!(m.vertices.len(), 2 * 16 + 2 * 17);
        assert_eq!(m.indices.len(), 3 * (2 * 16 + 2 * 14));
    }
    assert_eq!(bottom.shape.height, 2_000);
    assert_eq!(top.shape.height, 6_000);
    assert_eq!(flange.shape.height, 400);
}
