use vstd::prelude::*;
use vstd::arithmetic::div_mod::lemma_fundamental_div_mod_converse;

verus! {

/// Vertices of a terrain chunk: 9 rows of 9 outer vertices and 8 rows of 8 inner ones,
/// stored as 8 rows of 17 (9 outer, then 8 inner) and a last row of 9.
pub const CHUNK_VERTICES: usize = 145;

/// Indices of a terrain chunk: 64 cells of four triangles.
pub const CHUNK_INDICES: usize = 768;

/// The twelve indices of cell (`row`, `col`): four triangles around the inner vertex,
/// `tr cr tl`, `br cr tr`, `bl cr br`, `tl cr bl`.
pub open spec fn cell_triangles(row: int, col: int) -> Seq<u32> {
    let tl = (row * 17 + col) as u32;
    let bl = ((row + 1) * 17 + col) as u32;
    let br = ((row + 1) * 17 + col + 1) as u32;
    let tr = (row * 17 + col + 1) as u32;
    let cr = (row * 17 + 9 + col) as u32;
    seq![tr, cr, tl, br, cr, tr, bl, cr, br, tl, cr, bl]
}

/// The indices of the four triangles that make up cell (`row`, `col`), around its inner
/// vertex.
pub fn cell_indices(row: usize, col: usize) -> (r: [u32; 12])
    requires
        (row + 1) * 17 + col + 1 <= usize::MAX,
    ensures
        r@ == cell_triangles(row as int, col as int),
{
    let tl = (row * 17 + col) as u32;
    let bl = ((row + 1) * 17 + col) as u32;
    let br = ((row + 1) * 17 + col + 1) as u32;
    let tr = (row * 17 + col + 1) as u32;
    let cr = (row * 17 + 9 + col) as u32;
    let indices = [tr, cr, tl, br, cr, tr, bl, cr, br, tl, cr, bl];
    assert(indices@ =~= cell_triangles(row as int, col as int));
    indices
}

/// The index buffer of a chunk: the cells row by row, twelve indices each.
pub open spec fn chunk_index_list() -> Seq<u32> {
    Seq::new(
        CHUNK_INDICES as nat,
        |i: int| cell_triangles((i / 12) / 8, (i / 12) % 8)[i % 12],
    )
}

/// The index buffer of a terrain chunk: the 64 cells, row by row.
pub fn chunk_indices() -> (v: Vec<u32>)
    ensures
        v@ == chunk_index_list(),
{
    let mut indices: Vec<u32> = Vec::new();
    let mut row: usize = 0;
    while row < 8
        invariant
            row <= 8,
            indices@.len() == row * 96,
            forall|i: int| 0 <= i < indices@.len() ==> indices@[i] == chunk_index_list()[i],
        decreases 8 - row,
    {
        let mut col: usize = 0;
        while col < 8
            invariant
                row < 8,
                col <= 8,
                indices@.len() == row * 96 + col * 12,
                forall|i: int| 0 <= i < indices@.len() ==> indices@[i] == chunk_index_list()[i],
            decreases 8 - col,
        {
            let cell = cell_indices(row, col);
            let mut k: usize = 0;
            while k < 12
                invariant
                    row < 8,
                    col < 8,
                    k <= 12,
                    cell@ == cell_triangles(row as int, col as int),
                    indices@.len() == row * 96 + col * 12 + k,
                    forall|i: int|
                        0 <= i < indices@.len() ==> indices@[i] == chunk_index_list()[i],
                decreases 12 - k,
            {
                let ghost at = (row * 96 + col * 12 + k) as int;
                assert(at / 12 == row * 8 + col && at % 12 == k) by (nonlinear_arith)
                    requires
                        at == row * 96 + col * 12 + k,
                        k < 12,
                        col < 8,
                ;
                assert((row * 8 + col) / 8 == row && (row * 8 + col) % 8 == col) by (
                nonlinear_arith)
                    requires
                        col < 8,
                ;
                indices.push(cell[k]);
                k = k + 1;
            }
            col = col + 1;
        }
        row = row + 1;
    }
    assert(indices@ =~= chunk_index_list());
    indices
}

/// Every index of a chunk's index buffer names one of its 145 vertices, and the second
/// index of every triangle is the inner vertex at the centre of its cell.
pub proof fn law_indices_name_chunk_vertices()
    ensures
        forall|i: int| 0 <= i < CHUNK_INDICES ==> #[trigger] chunk_index_list()[i] < CHUNK_VERTICES,
        forall|i: int|
            0 <= i < CHUNK_INDICES && i % 3 == 1 ==> #[trigger] chunk_index_list()[i] % 17 >= 9,
{
    assert forall|i: int| 0 <= i < CHUNK_INDICES implies #[trigger] chunk_index_list()[i]
        < CHUNK_VERTICES && (i % 3 == 1 ==> chunk_index_list()[i] % 17 >= 9) by {
        let cell = i / 12;
        let row = cell / 8;
        let col = cell % 8;
        assert(0 <= row < 8 && 0 <= col < 8);
        let t = cell_triangles(row, col);
        assert(t[1] == t[4] && t[4] == t[7] && t[7] == t[10]);
        assert((row * 17 + 9 + col) as u32 % 17 >= 9) by (nonlinear_arith)
            requires
                0 <= row < 8,
                0 <= col < 8,
        ;
        if i % 3 == 1 {
            assert(i % 12 == 1 || i % 12 == 4 || i % 12 == 7 || i % 12 == 10);
        }
    }
}

/// Each cell's four triangles fan around the cell's own centre and use the cell's own
/// corners. In the vertex grid (half cells, see `vertex_grid`), cell (`row`, `col`) spans
/// x from 2col to 2col+2 and y from 2row to 2row+2; its triangles are (top-right, centre,
/// top-left), (bottom-right, centre, top-right), (bottom-left, centre, bottom-right) and
/// (top-left, centre, bottom-left), the centre being (2col+1, 2row+1).
pub proof fn law_cell_fans_around_its_centre(row: int, col: int)
    requires
        0 <= row < 8,
        0 <= col < 8,
    ensures
        ({
            let t = cell_triangles(row, col);
            let top_left = (2 * col, 2 * row);
            let top_right = (2 * col + 2, 2 * row);
            let bottom_left = (2 * col, 2 * row + 2);
            let bottom_right = (2 * col + 2, 2 * row + 2);
            let centre = (2 * col + 1, 2 * row + 1);
            &&& t.len() == 12
            &&& vertex_grid(t[0] as int) == top_right
            &&& vertex_grid(t[1] as int) == centre
            &&& vertex_grid(t[2] as int) == top_left
            &&& vertex_grid(t[3] as int) == bottom_right
            &&& vertex_grid(t[4] as int) == centre
            &&& vertex_grid(t[5] as int) == top_right
            &&& vertex_grid(t[6] as int) == bottom_left
            &&& vertex_grid(t[7] as int) == centre
            &&& vertex_grid(t[8] as int) == bottom_right
            &&& vertex_grid(t[9] as int) == top_left
            &&& vertex_grid(t[10] as int) == centre
            &&& vertex_grid(t[11] as int) == bottom_left
        }),
{
    let tl = row * 17 + col;
    let tr = row * 17 + col + 1;
    let bl = (row + 1) * 17 + col;
    let br = (row + 1) * 17 + col + 1;
    let cr = row * 17 + 9 + col;
    lemma_fundamental_div_mod_converse(tl, 17, row, col);
    lemma_fundamental_div_mod_converse(tr, 17, row, col + 1);
    lemma_fundamental_div_mod_converse(bl, 17, row + 1, col);
    lemma_fundamental_div_mod_converse(br, 17, row + 1, col + 1);
    lemma_fundamental_div_mod_converse(cr, 17, row, 9 + col);
    let t = cell_triangles(row, col);
    assert(t[0] as int == tr && t[2] as int == tl && t[1] as int == cr);
    assert(t[3] as int == br && t[6] as int == bl);
}

/// Every index of a chunk's index buffer lies in the cell its group of twelve belongs to
/// (cells row by row), and the middle vertex of every triangle is that cell's centre.
pub proof fn law_chunk_indices_stay_in_their_cell()
    ensures
        forall|i: int|
            0 <= i < CHUNK_INDICES ==> {
                let row = (i / 12) / 8;
                let col = (i / 12) % 8;
                let g = #[trigger] vertex_grid(chunk_index_list()[i] as int);
                &&& 2 * col <= g.0 <= 2 * col + 2
                &&& 2 * row <= g.1 <= 2 * row + 2
                &&& i % 3 == 1 ==> g == (2 * col + 1, 2 * row + 1)
            },
{
    assert forall|i: int| 0 <= i < CHUNK_INDICES implies {
        let row = (i / 12) / 8;
        let col = (i / 12) % 8;
        let g = #[trigger] vertex_grid(chunk_index_list()[i] as int);
        &&& 2 * col <= g.0 <= 2 * col + 2
        &&& 2 * row <= g.1 <= 2 * row + 2
        &&& i % 3 == 1 ==> g == (2 * col + 1, 2 * row + 1)
    } by {
        let row = (i / 12) / 8;
        let col = (i / 12) % 8;
        law_cell_fans_around_its_centre(row, col);
        let k = i % 12;
        assert(chunk_index_list()[i] == cell_triangles(row, col)[k]);
        if i % 3 == 1 {
            assert(k == 1 || k == 4 || k == 7 || k == 10);
        }
    }
}

/// Where vertex `idx` of a chunk lies, in half cells from the chunk's corner (x, then y):
/// outer vertices at even coordinates, inner vertices half a cell further in both
/// directions.
pub open spec fn vertex_grid(idx: int) -> (int, int) {
    let row = idx / 17;
    let col = idx % 17;
    if col < 9 {
        (2 * col, 2 * row)
    } else {
        (2 * (col - 9) + 1, 2 * row + 1)
    }
}

/// The 145 vertices of a chunk lie inside it (0 to 16 half cells in both directions) and no
/// two of them lie at the same place.
pub proof fn law_vertices_fill_the_chunk_grid()
    ensures
        forall|i: int|
            0 <= i < CHUNK_VERTICES ==> 0 <= #[trigger] vertex_grid(i).0 <= 16 && 0
                <= vertex_grid(i).1 <= 16,
        forall|a: int, b: int|
            0 <= a < b < CHUNK_VERTICES ==> #[trigger] vertex_grid(a) != #[trigger] vertex_grid(b),
{
    assert forall|i: int| 0 <= i < CHUNK_VERTICES implies 0 <= #[trigger] vertex_grid(i).0 <= 16
        && 0 <= vertex_grid(i).1 <= 16 by {
        assert(i == 17 * (i / 17) + i % 17);
        assert(0 <= i / 17 <= 8);
        if i / 17 == 8 {
            assert(i % 17 < 9);
        }
    }
    assert forall|a: int, b: int| 0 <= a < b < CHUNK_VERTICES implies #[trigger] vertex_grid(a)
        != #[trigger] vertex_grid(b) by {
        assert(a == 17 * (a / 17) + a % 17);
        assert(b == 17 * (b / 17) + b % 17);
        if vertex_grid(a) == vertex_grid(b) {
            let (ra, ca, rb, cb) = (a / 17, a % 17, b / 17, b % 17);
            if ca < 9 && cb < 9 {
                assert(ra == rb && ca == cb);
            } else if ca >= 9 && cb >= 9 {
                assert(ra == rb && ca == cb);
            } else if ca < 9 {
                assert(2 * ca == 2 * (cb - 9) + 1);
            } else {
                assert(2 * (ca - 9) + 1 == 2 * cb);
            }
        }
    }
}

/// The position of vertex `idx` within its chunk in half cells (multiply by half the cell
/// size for world units): the first 9 of each row of 17 are outer vertices, the other 8
/// inner ones.
pub fn vertex_local_pos(idx: usize) -> (p: (usize, usize))
    ensures
        p.0 == vertex_grid(idx as int).0,
        p.1 == vertex_grid(idx as int).1,
{
    let row = idx / 17;
    let col = idx % 17;
    if col < 9 {
        (2 * col, 2 * row)
    } else {
        (2 * (col - 9) + 1, 2 * row + 1)
    }
}

} // verus!
