use quant_planet::layout::{convert_mat4_to_16, pack_quants, QUANT_NUMBER};

#[test]
fn flatten_matrix_group_by_group() {
    let m = [[1, 2, 3, 4], [5, 6, 7, 8], [9, 10, 11, 12], [13, 14, 15, 16]];
    assert_eq!(
        convert_mat4_to_16(m),
        [1, 2, 3, 4, 5, 6, 7, 8, 9, 10, 11, 12, 13, 14, 15, 16]
    );
}

#[test]
fn flatten_matrix_of_floats() {
    let m = [
        [1.0f32, 0.0, 0.0, 0.0],
        [0.0, 2.0, 0.0, 0.0],
        [0.0, 0.0, 3.0, 0.0],
        [4.0, 5.0, 6.0, 1.0],
    ];
    let out = convert_mat4_to_16(m);
    assert_eq!(out[0], 1.0);
    assert_eq!(out[5], 2.0);
    assert_eq!(out[10], 3.0);
    assert_eq!(out[12], 4.0);
    assert_eq!(out[13], 5.0);
    assert_eq!(out[14], 6.0);
    assert_eq!(out[15], 1.0);
}

#[test]
fn pack_two_quants() {
    let shapes = vec![[1, 2, 3, 4], [5, 6, 7, 8]];
    let colors = vec![[10, 20, 30, 0], [40, 50, 60, 0]];
    let packed = pack_quants(&shapes, &colors, [0; 4]);
    assert_eq!(packed.count, 2);
    assert_eq!(packed.rows.len(), QUANT_NUMBER);
    assert_eq!(packed.rows[0], [1, 2, 3, 4]);
    assert_eq!(packed.rows[1], [10, 20, 30, 0]);
    assert_eq!(packed.rows[2], [5, 6, 7, 8]);
    assert_eq!(packed.rows[3], [40, 50, 60, 0]);
    assert!(packed.rows[4..].iter().all(|r| *r == [0; 4]));
}

#[test]
fn pack_no_quants() {
    let packed = pack_quants::<u8>(&vec![], &vec![], [9; 4]);
    assert_eq!(packed.count, 0);
    assert_eq!(packed.rows.len(), QUANT_NUMBER);
    assert!(packed.rows.iter().all(|r| *r == [9; 4]));
}

#[test]
fn pack_full_buffer() {
    let n = QUANT_NUMBER / 2;
    let shapes: Vec<[u32; 4]> = (0..n as u32).map(|k| [k, k, k, 1]).collect();
    let colors: Vec<[u32; 4]> = (0..n as u32).map(|k| [k, 0, 0, 0]).collect();
    let packed = pack_quants(&shapes, &colors, [7; 4]);
    assert_eq!(packed.count as usize, n);
    assert_eq!(packed.rows.len(), QUANT_NUMBER);
    assert_eq!(packed.rows[QUANT_NUMBER - 2], [n as u32 - 1, n as u32 - 1, n as u32 - 1, 1]);
    assert_eq!(packed.rows[QUANT_NUMBER - 1], [n as u32 - 1, 0, 0, 0]);
    assert!(!packed.rows.contains(&[7; 4]));
}
