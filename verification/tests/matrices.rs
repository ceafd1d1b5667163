use parti_game::fixed::{FP_ONE, MAT_LIMIT};
use parti_game::mat4::Mat4;
use parti_game::mesh::group_mesh_rows;

#[test]
fn identity_is_a_multiplicative_unit() {
    let m = Mat4::translation(123, -456, 789);
    let i = Mat4::identity();
    assert_eq!(i.mul_checked(&m).unwrap(), m);
    assert_eq!(m.mul_checked(&i).unwrap(), m);
}

#[test]
fn translations_compose_by_addition() {
    let a = Mat4::translation(3 * FP_ONE, 0, -FP_ONE);
    let b = Mat4::translation(FP_ONE, 5, FP_ONE);
    let ab = a.mul_checked(&b).unwrap();
    assert_eq!(ab, Mat4::translation(4 * FP_ONE, 5, 0));
}

#[test]
fn multiplication_overflow_returns_none() {
    let big = Mat4::new([MAT_LIMIT; 16]);
    assert!(big.mul_checked(&big).is_none());
}

#[test]
fn clamped_multiplication_pins_entries() {
    let big = Mat4::new([MAT_LIMIT; 16]);
    let p = big.mul_clamped(&big);
    for r in 0..4 {
        for c in 0..4 {
            assert_eq!(p.entry(r, c), MAT_LIMIT);
        }
    }
}

#[test]
fn lerp_endpoints_and_midpoint() {
    let a = Mat4::translation(0, 0, 0);
    let b = Mat4::translation(FP_ONE, -FP_ONE, 9);
    assert_eq!(a.lerp(&b, 0), a);
    assert_eq!(a.lerp(&b, FP_ONE), b);
    let mid = a.lerp(&b, FP_ONE / 2);
    assert_eq!(mid.entry(0, 3), FP_ONE / 2);
    assert_eq!(mid.entry(1, 3), -FP_ONE / 2);
    // floor rounding: 9 / 2 rounds down to 4
    assert_eq!(mid.entry(2, 3), 4);
}

#[test]
fn entry_reads_row_major() {
    let m = Mat4::new([
        1, 2, 3, 4, 5, 6, 7, 8, 9, 10, 11, 12, 13, 14, 15, 16,
    ]);
    assert_eq!(m.entry(0, 0), 1);
    assert_eq!(m.entry(0, 3), 4);
    assert_eq!(m.entry(3, 0), 13);
    assert_eq!(m.entry(2, 1), 10);
}

#[test]
fn mesh_rows_group_in_order() {
    let rows: Vec<(usize, i32, u8)> = vec![
        (1, 10, b'a'),
        (1, 10, b'b'),
        (2, 20, b'c'),
        (1, 10, b'd'),
        (2, 20, b'e'),
    ];
    let meshes = group_mesh_rows(rows);
    assert_eq!(meshes.len(), 2);
    assert_eq!(meshes[0].0, vec![b'a', b'b', b'd']);
    assert_eq!(meshes[0].1, 10);
    assert_eq!(meshes[1].0, vec![b'c', b'e']);
    assert_eq!(meshes[1].1, 20);
}

#[test]
fn mesh_rows_remember_first_texture() {
    let rows: Vec<(usize, i32, u8)> = vec![(1, 7, 1), (1, 9, 2)];
    let meshes = group_mesh_rows(rows);
    assert_eq!(meshes.len(), 1);
    assert_eq!(meshes[0].1, 7);
}

#[test]
fn no_mesh_rows_no_meshes() {
    let rows: Vec<(usize, i32, u8)> = Vec::new();
    assert_eq!(group_mesh_rows(rows).len(), 0);
}
