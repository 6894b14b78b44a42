use vstd::prelude::*;

verus! {

/// The number of four-wide rows in the particle buffer read by the renderer.
pub const QUANT_NUMBER: usize = 16384;

/// Flattens a 4x4 matrix, given as four groups of four entries, into sixteen
/// entries: group after group, each group in order.
pub fn convert_mat4_to_16<T: Copy>(input: [[T; 4]; 4]) -> (output: [T; 16])
    ensures
        forall|k: int| 0 <= k < 16 ==> #[trigger] output@[k] == input@[k / 4]@[k % 4],
{
    let a = input[0];
    let b = input[1];
    let c = input[2];
    let d = input[3];
    let output = [
        a[0], a[1], a[2], a[3],
        b[0], b[1], b[2], b[3],
        c[0], c[1], c[2], c[3],
        d[0], d[1], d[2], d[3],
    ];
    assert(output@.len() == 16);
    output
}

/// The particle buffer the renderer reads: how many quants it holds, and its
/// `QUANT_NUMBER` rows. Quant `k` fills rows `2k` (its shape: position and
/// radius) and `2k + 1` (its colour); the rows after the last quant are blank.
pub struct PackedQuants<T> {
    pub count: u32,
    pub rows: Vec<[T; 4]>,
}

/// The row at place `j` of the buffer that holds the quants whose shapes and
/// colours are given, with `blank` after the last quant.
pub open spec fn packed_row<T>(shapes: Seq<[T; 4]>, colors: Seq<[T; 4]>, blank: [T; 4], j: int) -> [T; 4] {
    if j < 2 * shapes.len() {
        if j % 2 == 0 {
            shapes[j / 2]
        } else {
            colors[j / 2]
        }
    } else {
        blank
    }
}

/// Lays out the quants whose shapes and colours are given (one of each per
/// quant) in the particle buffer. The buffer has room for `QUANT_NUMBER / 2`
/// quants: more would not fit.
pub fn pack_quants<T: Copy>(shapes: &Vec<[T; 4]>, colors: &Vec<[T; 4]>, blank: [T; 4]) -> (packed: PackedQuants<T>)
    requires
        shapes.len() == colors.len(),
        2 * shapes.len() <= QUANT_NUMBER,
    ensures
        packed.count == shapes.len(),
        packed.rows.len() == QUANT_NUMBER,
        forall|j: int| 0 <= j < QUANT_NUMBER ==> #[trigger] packed.rows@[j] == packed_row(shapes@, colors@, blank, j),
        forall|k: int|
            0 <= k < shapes.len() ==> packed.rows@[2 * k] == #[trigger] shapes@[k]
                && packed.rows@[2 * k + 1] == colors@[k],
        forall|j: int| 2 * shapes.len() <= j < QUANT_NUMBER ==> #[trigger] packed.rows@[j] == blank,
{
    let n = shapes.len();
    let mut rows: Vec<[T; 4]> = Vec::new();
    for k in 0..n
        invariant
            n == shapes.len(),
            n == colors.len(),
            2 * n <= QUANT_NUMBER,
            rows.len() == 2 * k,
            forall|j: int| 0 <= j < 2 * k ==> #[trigger] rows@[j] == packed_row(shapes@, colors@, blank, j),
    {
        rows.push(shapes[k]);
        rows.push(colors[k]);
        assert((2 * k) as int / 2 == k && (2 * k) as int % 2 == 0);
        assert((2 * k + 1) as int / 2 == k && (2 * k + 1) as int % 2 == 1);
    }
    while rows.len() < QUANT_NUMBER
        invariant
            n == shapes.len(),
            2 * n <= rows.len() <= QUANT_NUMBER,
            forall|j: int| 0 <= j < rows.len() ==> #[trigger] rows@[j] == packed_row(shapes@, colors@, blank, j),
        decreases QUANT_NUMBER - rows.len(),
    {
        rows.push(blank);
    }
    proof {
        lemma_packed_rows_place_quants(shapes@, colors@, blank);
        assert forall|k: int| 0 <= k < shapes.len() implies rows@[2 * k] == #[trigger] shapes@[k]
            && rows@[2 * k + 1] == colors@[k] by {
            assert(rows@[2 * k] == packed_row(shapes@, colors@, blank, 2 * k));
            assert(rows@[2 * k + 1] == packed_row(shapes@, colors@, blank, 2 * k + 1));
        }
    }
    PackedQuants { count: n as u32, rows }
}

/// In the buffer, quant `k` has its shape at row `2k` and its colour at row
/// `2k + 1`, for every quant; every row from twice the number of quants on is
/// blank.
pub proof fn lemma_packed_rows_place_quants<T>(shapes: Seq<[T; 4]>, colors: Seq<[T; 4]>, blank: [T; 4])
    ensures
        forall|k: int|
            0 <= k < shapes.len() ==> packed_row(shapes, colors, blank, 2 * k) == #[trigger] shapes[k]
                && packed_row(shapes, colors, blank, 2 * k + 1) == colors[k],
        forall|j: int| j >= 2 * shapes.len() ==> #[trigger] packed_row(shapes, colors, blank, j) == blank,
{
    assert forall|k: int| 0 <= k < shapes.len() implies packed_row(shapes, colors, blank, 2 * k)
        == #[trigger] shapes[k] && packed_row(shapes, colors, blank, 2 * k + 1) == colors[k] by {
        assert((2 * k) / 2 == k && (2 * k) % 2 == 0);
        assert((2 * k + 1) / 2 == k && (2 * k + 1) % 2 == 1);
    }
}

} // verus!
