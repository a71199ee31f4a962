//! Piece kinds, their 4x4 occupancy matrices, and positioned pieces.
//!
//! A matrix is modelled in specifications as a `Seq<Seq<u8>>` of side 4
//! whose entries are 1 (occupied) or 0 (empty). Rotation is the
//! transpose-and-reverse transform; the O kind is never rotated.

use vstd::prelude::*;
use crate::constants::GRID_WIDTH;

verus! {

broadcast use vstd::seq_lib::lemma_seq_contains_after_push;

/// The seven tetromino kinds.
#[derive(Clone, Copy, Debug, PartialEq, Eq, Structural)]
pub enum TetrominoType {
    I,
    O,
    T,
    S,
    Z,
    J,
    L,
}

/// The mathematical view of a vector of rows: a sequence of sequences.
pub open spec fn rows_view<T>(v: Seq<Vec<T>>) -> Seq<Seq<T>> {
    Seq::new(v.len(), |i: int| v[i]@)
}

/// A 4x4 matrix: four rows of four entries each.
pub open spec fn mat_dims(m: Seq<Seq<u8>>) -> bool {
    m.len() == 4 && forall|i: int| 0 <= i < 4 ==> (#[trigger] m[i]).len() == 4
}

/// Whether the matrix marks cell (row `i`, column `j`) as occupied.
pub open spec fn mat_cell(m: Seq<Seq<u8>>, i: int, j: int) -> bool {
    m[i][j] == 1u8
}

/// Whether the matrix has at least one occupied cell.
pub open spec fn mat_nonempty(m: Seq<Seq<u8>>) -> bool {
    exists|i: int, j: int| 0 <= i < 4 && 0 <= j < 4 && mat_cell(m, i, j)
}

/// A well-formed occupancy matrix: 4x4 and not blank.
pub open spec fn shape_wf(m: Seq<Seq<u8>>) -> bool {
    mat_dims(m) && mat_nonempty(m)
}

/// The matrix rotated a quarter turn clockwise:
/// entry (i, j) of the result is entry (3 - j, i) of the argument.
pub open spec fn rot_cw(m: Seq<Seq<u8>>) -> Seq<Seq<u8>> {
    Seq::new(4, |i: int| Seq::new(4, |j: int| m[3 - j][i]))
}

/// The matrix rotated a quarter turn counter-clockwise:
/// entry (i, j) of the result is entry (j, 3 - i) of the argument.
pub open spec fn rot_ccw(m: Seq<Seq<u8>>) -> Seq<Seq<u8>> {
    Seq::new(4, |i: int| Seq::new(4, |j: int| m[j][3 - i]))
}

/// A clockwise quarter turn followed by a counter-clockwise one (or the
/// other way round) restores any 4x4 occupancy matrix exactly.
pub proof fn lemma_rotation_round_trip(m: Seq<Seq<u8>>)
    requires
        mat_dims(m),
    ensures
        rot_ccw(rot_cw(m)) == m,
        rot_cw(rot_ccw(m)) == m,
{
    assert(rot_ccw(rot_cw(m)) =~~= m);
    assert(rot_cw(rot_ccw(m)) =~~= m);
}

/// Rotating a matrix with an occupied cell yields a matrix with an
/// occupied cell: the cell merely moves.
pub proof fn lemma_rot_nonempty(m: Seq<Seq<u8>>)
    requires
        mat_dims(m),
        mat_nonempty(m),
    ensures
        mat_nonempty(rot_cw(m)),
        mat_nonempty(rot_ccw(m)),
{
    let (i, j): (int, int) = choose|i: int, j: int|
        0 <= i < 4 && 0 <= j < 4 && mat_cell(m, i, j);
    assert(mat_cell(rot_cw(m), j, 3 - i));
    assert(mat_cell(rot_ccw(m), 3 - j, i));
}

/// The canonical spawn-orientation matrix of each kind.
pub open spec fn shape_spec(t: TetrominoType) -> Seq<Seq<u8>> {
    match t {
        TetrominoType::I => seq![
            seq![0u8, 0u8, 0u8, 0u8],
            seq![1u8, 1u8, 1u8, 1u8],
            seq![0u8, 0u8, 0u8, 0u8],
            seq![0u8, 0u8, 0u8, 0u8],
        ],
        TetrominoType::O => seq![
            seq![0u8, 0u8, 0u8, 0u8],
            seq![0u8, 1u8, 1u8, 0u8],
            seq![0u8, 1u8, 1u8, 0u8],
            seq![0u8, 0u8, 0u8, 0u8],
        ],
        TetrominoType::T => seq![
            seq![0u8, 0u8, 0u8, 0u8],
            seq![0u8, 1u8, 0u8, 0u8],
            seq![1u8, 1u8, 1u8, 0u8],
            seq![0u8, 0u8, 0u8, 0u8],
        ],
        TetrominoType::S => seq![
            seq![0u8, 0u8, 0u8, 0u8],
            seq![0u8, 1u8, 1u8, 0u8],
            seq![1u8, 1u8, 0u8, 0u8],
            seq![0u8, 0u8, 0u8, 0u8],
        ],
        TetrominoType::Z => seq![
            seq![0u8, 0u8, 0u8, 0u8],
            seq![1u8, 1u8, 0u8, 0u8],
            seq![0u8, 1u8, 1u8, 0u8],
            seq![0u8, 0u8, 0u8, 0u8],
        ],
        TetrominoType::J => seq![
            seq![0u8, 0u8, 0u8, 0u8],
            seq![1u8, 0u8, 0u8, 0u8],
            seq![1u8, 1u8, 1u8, 0u8],
            seq![0u8, 0u8, 0u8, 0u8],
        ],
        TetrominoType::L => seq![
            seq![0u8, 0u8, 0u8, 0u8],
            seq![0u8, 0u8, 1u8, 0u8],
            seq![1u8, 1u8, 1u8, 0u8],
            seq![0u8, 0u8, 0u8, 0u8],
        ],
    }
}

/// Every kind's canonical matrix is 4x4 and has an occupied cell.
pub proof fn lemma_shape_spec_wf(t: TetrominoType)
    ensures
        shape_wf(shape_spec(t)),
{
    match t {
        TetrominoType::I => {
            assert(mat_cell(shape_spec(t), 1, 0));
        },
        TetrominoType::O => {
            assert(mat_cell(shape_spec(t), 1, 1));
        },
        TetrominoType::T => {
            assert(mat_cell(shape_spec(t), 1, 1));
        },
        TetrominoType::S => {
            assert(mat_cell(shape_spec(t), 1, 1));
        },
        TetrominoType::Z => {
            assert(mat_cell(shape_spec(t), 1, 0));
        },
        TetrominoType::J => {
            assert(mat_cell(shape_spec(t), 1, 0));
        },
        TetrominoType::L => {
            assert(mat_cell(shape_spec(t), 1, 2));
        },
    }
}

impl TetrominoType {
    /// The kind's canonical spawn-orientation matrix as executable rows.
    pub fn shape(&self) -> (r: Vec<Vec<u8>>)
        ensures
            rows_view(r@) == shape_spec(*self),
    {
        let r: Vec<Vec<u8>> = match self {
            TetrominoType::I => vec![
                vec![0u8, 0u8, 0u8, 0u8],
                vec![1u8, 1u8, 1u8, 1u8],
                vec![0u8, 0u8, 0u8, 0u8],
                vec![0u8, 0u8, 0u8, 0u8],
            ],
            TetrominoType::O => vec![
                vec![0u8, 0u8, 0u8, 0u8],
                vec![0u8, 1u8, 1u8, 0u8],
                vec![0u8, 1u8, 1u8, 0u8],
                vec![0u8, 0u8, 0u8, 0u8],
            ],
            TetrominoType::T => vec![
                vec![0u8, 0u8, 0u8, 0u8],
                vec![0u8, 1u8, 0u8, 0u8],
                vec![1u8, 1u8, 1u8, 0u8],
                vec![0u8, 0u8, 0u8, 0u8],
            ],
            TetrominoType::S => vec![
                vec![0u8, 0u8, 0u8, 0u8],
                vec![0u8, 1u8, 1u8, 0u8],
                vec![1u8, 1u8, 0u8, 0u8],
                vec![0u8, 0u8, 0u8, 0u8],
            ],
            TetrominoType::Z => vec![
                vec![0u8, 0u8, 0u8, 0u8],
                vec![1u8, 1u8, 0u8, 0u8],
                vec![0u8, 1u8, 1u8, 0u8],
                vec![0u8, 0u8, 0u8, 0u8],
            ],
            TetrominoType::J => vec![
                vec![0u8, 0u8, 0u8, 0u8],
                vec![1u8, 0u8, 0u8, 0u8],
                vec![1u8, 1u8, 1u8, 0u8],
                vec![0u8, 0u8, 0u8, 0u8],
            ],
            TetrominoType::L => vec![
                vec![0u8, 0u8, 0u8, 0u8],
                vec![0u8, 0u8, 1u8, 0u8],
                vec![1u8, 1u8, 1u8, 0u8],
                vec![0u8, 0u8, 0u8, 0u8],
            ],
        };
        proof {
            assert(rows_view(r@) =~~= shape_spec(*self));
        }
        r
    }

    /// The seven kinds, once each, in catalog order.
    pub fn all_types() -> (r: Vec<TetrominoType>)
        ensures
            r@ == all_kinds(),
    {
        let r: Vec<TetrominoType> = vec![
            TetrominoType::I,
            TetrominoType::O,
            TetrominoType::T,
            TetrominoType::S,
            TetrominoType::Z,
            TetrominoType::J,
            TetrominoType::L,
        ];
        proof {
            assert(r@ =~= all_kinds());
        }
        r
    }
}

/// A positioned, rotatable piece: a kind, the current rotated variant of
/// its occupancy matrix, the origin of that matrix in board coordinates
/// (column `x`, row `y`), and a rotation index.
pub struct Tetromino {
    /// The piece's kind.
    pub tetromino_type: TetrominoType,
    /// The current occupancy matrix, a rotated variant of the kind's
    /// canonical matrix.
    pub shape: Vec<Vec<u8>>,
    /// Board column of the matrix's left edge; may be negative.
    pub x: i32,
    /// Board row of the matrix's top edge; may be negative while the
    /// piece still reaches above the visible top.
    pub y: i32,
    /// Quarter turns applied so far, modulo 4.
    pub rotation: u8,
}

/// Copies an occupancy matrix row by row.
pub(crate) fn copy_shape(shape: &Vec<Vec<u8>>) -> (r: Vec<Vec<u8>>)
    requires
        mat_dims(rows_view(shape@)),
    ensures
        rows_view(r@) == rows_view(shape@),
{
    let ghost m = rows_view(shape@);
    let mut r: Vec<Vec<u8>> = Vec::new();
    for i in 0..4usize
        invariant
            mat_dims(m),
            m == rows_view(shape@),
            r@.len() == i,
            forall|ii: int| 0 <= ii < i ==> #[trigger] r@[ii]@ == m[ii],
    {
        let mut row: Vec<u8> = Vec::new();
        for j in 0..4usize
            invariant
                mat_dims(m),
                m == rows_view(shape@),
                0 <= i < 4,
                row@.len() == j,
                forall|jj: int| 0 <= jj < j ==> row@[jj] == m[i as int][jj],
        {
            assert(m[i as int] == shape@[i as int]@);
            row.push(shape[i][j]);
        }
        assert(row@ =~= m[i as int]);
        r.push(row);
    }
    proof {
        assert(rows_view(r@) =~~= m);
    }
    r
}

/// Builds the rows of the clockwise-rotated matrix.
pub(crate) fn rotated_cw_shape(shape: &Vec<Vec<u8>>) -> (r: Vec<Vec<u8>>)
    requires
        mat_dims(rows_view(shape@)),
    ensures
        rows_view(r@) == rot_cw(rows_view(shape@)),
{
    let ghost m = rows_view(shape@);
    let mut r: Vec<Vec<u8>> = Vec::new();
    for i in 0..4usize
        invariant
            mat_dims(m),
            m == rows_view(shape@),
            r@.len() == i,
            forall|ii: int| 0 <= ii < i ==> #[trigger] r@[ii]@ == rot_cw(m)[ii],
    {
        let mut row: Vec<u8> = Vec::new();
        for j in 0..4usize
            invariant
                mat_dims(m),
                m == rows_view(shape@),
                0 <= i < 4,
                row@.len() == j,
                forall|jj: int| 0 <= jj < j ==> row@[jj] == rot_cw(m)[i as int][jj],
        {
            assert(m[3 - j as int] == shape@[3 - j as int]@);
            row.push(shape[3 - j][i]);
            assert(row@[j as int] == m[3 - j][i as int]);
        }
        assert(row@ =~= rot_cw(m)[i as int]);
        r.push(row);
    }
    proof {
        assert(rows_view(r@) =~~= rot_cw(m));
    }
    r
}

/// Builds the rows of the counter-clockwise-rotated matrix.
pub(crate) fn rotated_ccw_shape(shape: &Vec<Vec<u8>>) -> (r: Vec<Vec<u8>>)
    requires
        mat_dims(rows_view(shape@)),
    ensures
        rows_view(r@) == rot_ccw(rows_view(shape@)),
{
    let ghost m = rows_view(shape@);
    let mut r: Vec<Vec<u8>> = Vec::new();
    for i in 0..4usize
        invariant
            mat_dims(m),
            m == rows_view(shape@),
            r@.len() == i,
            forall|ii: int| 0 <= ii < i ==> #[trigger] r@[ii]@ == rot_ccw(m)[ii],
    {
        let mut row: Vec<u8> = Vec::new();
        for j in 0..4usize
            invariant
                mat_dims(m),
                m == rows_view(shape@),
                0 <= i < 4,
                row@.len() == j,
                forall|jj: int| 0 <= jj < j ==> row@[jj] == rot_ccw(m)[i as int][jj],
        {
            assert(m[j as int] == shape@[j as int]@);
            row.push(shape[j][3 - i]);
            assert(row@[j as int] == m[j as int][3 - i as int]);
        }
        assert(row@ =~= rot_ccw(m)[i as int]);
        r.push(row);
    }
    proof {
        assert(rows_view(r@) =~~= rot_ccw(m));
    }
    r
}

/// How many of the first `n` matrix entries, in row-major order, are
/// occupied.
pub open spec fn mat_ones_upto(m: Seq<Seq<u8>>, n: int) -> int
    decreases n,
{
    if n <= 0 {
        0
    } else {
        mat_ones_upto(m, n - 1) + if mat_cell(m, (n - 1) / 4, (n - 1) % 4) { 1int } else { 0int }
    }
}

/// How many cells of the matrix are occupied.
pub open spec fn mat_ones(m: Seq<Seq<u8>>) -> int {
    mat_ones_upto(m, 16)
}

/// The absolute coordinates of the occupied cells among the first `n`
/// matrix entries, in row-major order, for a matrix whose top-left
/// corner stands at (`px`, `py`).
pub open spec fn blocks_upto(m: Seq<Seq<u8>>, px: int, py: int, n: int) -> Seq<(i32, i32)>
    decreases n,
{
    if n <= 0 {
        Seq::empty()
    } else {
        blocks_upto(m, px, py, n - 1)
            + if mat_cell(m, (n - 1) / 4, (n - 1) % 4) {
                seq![(((px + (n - 1) % 4) as i32), ((py + (n - 1) / 4) as i32))]
            } else {
                Seq::empty()
            }
    }
}

/// The block list holds one entry per occupied cell.
proof fn lemma_blocks_upto_len(m: Seq<Seq<u8>>, px: int, py: int, n: int)
    requires
        0 <= n,
    ensures
        blocks_upto(m, px, py, n).len() == mat_ones_upto(m, n),
        0 <= mat_ones_upto(m, n) <= n,
    decreases n,
{
    if n > 0 {
        lemma_blocks_upto_len(m, px, py, n - 1);
    }
}

/// A coordinate pair stands in the block list exactly when some
/// occupied cell among the first `n` entries lands on it.
proof fn lemma_blocks_upto_contains(m: Seq<Seq<u8>>, px: int, py: int, n: int, c: (i32, i32))
    requires
        0 <= n <= 16,
        i32::MIN <= px <= i32::MAX - 3,
        i32::MIN <= py <= i32::MAX - 3,
    ensures
        blocks_upto(m, px, py, n).contains(c) <==> exists|i: int, j: int| {
            &&& 0 <= i < 4 && 0 <= j < 4
            &&& 4 * i + j < n
            &&& mat_cell(m, i, j)
            &&& c.0 as int == px + j
            &&& c.1 as int == py + i
        },
    decreases n,
{
    if n > 0 {
        lemma_blocks_upto_contains(m, px, py, n - 1, c);
        let pre = blocks_upto(m, px, py, n - 1);
        let ii = (n - 1) / 4;
        let jj = (n - 1) % 4;
        if mat_cell(m, ii, jj) {
            let e = (((px + jj) as i32), ((py + ii) as i32));
            assert(blocks_upto(m, px, py, n) =~= pre.push(e));
            assert(e.0 as int == px + jj && e.1 as int == py + ii);
            if blocks_upto(m, px, py, n).contains(c) && !pre.contains(c) {
                assert(c == e);
                assert(4 * ii + jj == n - 1);
            }
            if exists|i: int, j: int| {
                &&& 0 <= i < 4 && 0 <= j < 4
                &&& 4 * i + j < n
                &&& mat_cell(m, i, j)
                &&& c.0 as int == px + j
                &&& c.1 as int == py + i
            } {
                let (i, j): (int, int) = choose|i: int, j: int| {
                    &&& 0 <= i < 4 && 0 <= j < 4
                    &&& 4 * i + j < n
                    &&& mat_cell(m, i, j)
                    &&& c.0 as int == px + j
                    &&& c.1 as int == py + i
                };
                if 4 * i + j == n - 1 {
                    assert(i == ii && j == jj);
                    assert(c == e);
                }
            }
        } else {
            assert(blocks_upto(m, px, py, n) =~= pre);
            if exists|i: int, j: int| {
                &&& 0 <= i < 4 && 0 <= j < 4
                &&& 4 * i + j < n
                &&& mat_cell(m, i, j)
                &&& c.0 as int == px + j
                &&& c.1 as int == py + i
            } {
                let (i, j): (int, int) = choose|i: int, j: int| {
                    &&& 0 <= i < 4 && 0 <= j < 4
                    &&& 4 * i + j < n
                    &&& mat_cell(m, i, j)
                    &&& c.0 as int == px + j
                    &&& c.1 as int == py + i
                };
                assert(4 * i + j != n - 1);
            }
        }
    }
}

/// Distinct occupied cells land on distinct coordinates, so the block
/// list never repeats an entry.
proof fn lemma_blocks_upto_no_dup(m: Seq<Seq<u8>>, px: int, py: int, n: int)
    requires
        0 <= n <= 16,
        i32::MIN <= px <= i32::MAX - 3,
        i32::MIN <= py <= i32::MAX - 3,
    ensures
        blocks_upto(m, px, py, n).no_duplicates(),
    decreases n,
{
    if n > 0 {
        lemma_blocks_upto_no_dup(m, px, py, n - 1);
        let pre = blocks_upto(m, px, py, n - 1);
        let full = blocks_upto(m, px, py, n);
        let ii = (n - 1) / 4;
        let jj = (n - 1) % 4;
        if mat_cell(m, ii, jj) {
            let e = (((px + jj) as i32), ((py + ii) as i32));
            assert(full =~= pre.push(e));
            assert(!pre.contains(e)) by {
                lemma_blocks_upto_contains(m, px, py, n - 1, e);
                if pre.contains(e) {
                    let (i, j): (int, int) = choose|i: int, j: int| {
                        &&& 0 <= i < 4 && 0 <= j < 4
                        &&& 4 * i + j < n - 1
                        &&& mat_cell(m, i, j)
                        &&& e.0 as int == px + j
                        &&& e.1 as int == py + i
                    };
                    assert(i == ii && j == jj);
                }
            }
            assert forall|k1: int, k2: int|
                0 <= k1 < full.len() && 0 <= k2 < full.len() && k1 != k2
                implies full[k1] != full[k2] by {
                if k1 < pre.len() && k2 < pre.len() {
                    assert(pre[k1] == full[k1] && pre[k2] == full[k2]);
                } else if k1 < pre.len() {
                    assert(pre.contains(pre[k1]));
                } else if k2 < pre.len() {
                    assert(pre.contains(pre[k2]));
                }
            }
        } else {
            assert(full =~= pre);
        }
    }
}

impl Tetromino {
    /// The piece's occupancy matrix as a mathematical value.
    pub open spec fn mat(self) -> Seq<Seq<u8>> {
        rows_view(self.shape@)
    }

    /// A well-formed piece: a proper occupancy matrix and a rotation
    /// index below 4.
    pub open spec fn wf(self) -> bool {
        shape_wf(self.mat()) && self.rotation < 4
    }

    /// Whether the piece occupies the absolute board cell
    /// (column `cx`, row `cy`).
    pub open spec fn covers(self, cx: int, cy: int) -> bool {
        exists|i: int, j: int|
            0 <= i < 4 && 0 <= j < 4 && mat_cell(self.mat(), i, j)
                && cx == self.x + j && cy == self.y + i
    }

    /// A fresh piece of the given kind in spawn position: canonical
    /// matrix, origin at the board's horizontal middle and top row.
    pub fn new(tetromino_type: TetrominoType) -> (r: Tetromino)
        ensures
            r.tetromino_type == tetromino_type,
            r.mat() == shape_spec(tetromino_type),
            r.x == GRID_WIDTH as int / 2 - 2,
            r.y == 0,
            r.rotation == 0,
            r.wf(),
    {
        proof {
            lemma_shape_spec_wf(tetromino_type);
        }
        let shape = tetromino_type.shape();
        Tetromino {
            tetromino_type,
            shape,
            x: (GRID_WIDTH / 2) as i32 - 2,
            y: 0,
            rotation: 0,
        }
    }

    /// Rotates the matrix a quarter turn clockwise and advances the
    /// rotation index; the O kind is left untouched.
    pub fn rotate_cw(&mut self)
        requires
            old(self).wf(),
        ensures
            final(self).wf(),
            old(self).tetromino_type == TetrominoType::O ==> *final(self) == *old(self),
            old(self).tetromino_type != TetrominoType::O ==> ({
                &&& final(self).mat() == rot_cw(old(self).mat())
                &&& final(self).rotation == (old(self).rotation + 1) % 4
            }),
            final(self).tetromino_type == old(self).tetromino_type,
            final(self).x == old(self).x,
            final(self).y == old(self).y,
    {
        if self.tetromino_type == TetrominoType::O {
            return;
        }
        let rotated = rotated_cw_shape(&self.shape);
        proof {
            lemma_rot_nonempty(self.mat());
        }
        self.shape = rotated;
        self.rotation = (self.rotation + 1) % 4;
    }

    /// Rotates the matrix a quarter turn counter-clockwise and retreats
    /// the rotation index; the O kind is left untouched.
    pub fn rotate_ccw(&mut self)
        requires
            old(self).wf(),
        ensures
            final(self).wf(),
            old(self).tetromino_type == TetrominoType::O ==> *final(self) == *old(self),
            old(self).tetromino_type != TetrominoType::O ==> ({
                &&& final(self).mat() == rot_ccw(old(self).mat())
                &&& final(self).rotation == (old(self).rotation + 3) % 4
            }),
            final(self).tetromino_type == old(self).tetromino_type,
            final(self).x == old(self).x,
            final(self).y == old(self).y,
    {
        if self.tetromino_type == TetrominoType::O {
            return;
        }
        let rotated = rotated_ccw_shape(&self.shape);
        proof {
            lemma_rot_nonempty(self.mat());
        }
        self.shape = rotated;
        self.rotation = (self.rotation + 3) % 4;
    }

    /// The absolute board coordinates of every occupied cell, in
    /// row-major order of the matrix: exactly the cells the piece
    /// covers, one entry per occupied cell, none repeated.
    pub fn get_blocks(&self) -> (blocks: Vec<(i32, i32)>)
        requires
            mat_dims(self.mat()),
            self.x + 3 <= i32::MAX,
            self.y + 3 <= i32::MAX,
        ensures
            blocks@ == blocks_upto(self.mat(), self.x as int, self.y as int, 16),
            blocks@.len() == mat_ones(self.mat()),
            blocks@.no_duplicates(),
            forall|k: int| 0 <= k < blocks@.len()
                ==> self.covers(#[trigger] blocks@[k].0 as int, blocks@[k].1 as int),
            forall|i: int, j: int|
                0 <= i < 4 && 0 <= j < 4 && mat_cell(self.mat(), i, j)
                    ==> blocks@.contains((((self.x + j) as i32), ((self.y + i) as i32))),
    {
        let ghost m = self.mat();
        let ghost px = self.x as int;
        let ghost py = self.y as int;
        let mut blocks: Vec<(i32, i32)> = Vec::new();
        for n in 0..16usize
            invariant
                mat_dims(m),
                m == self.mat(),
                px == self.x as int,
                py == self.y as int,
                self.x + 3 <= i32::MAX,
                self.y + 3 <= i32::MAX,
                blocks@ == blocks_upto(m, px, py, n as int),
        {
            let ghost prev = blocks@;
            let i = n / 4;
            let j = n % 4;
            assert(m[i as int] == self.shape@[i as int]@);
            if self.shape[i][j] == 1 {
                let cx = self.x + j as i32;
                let cy = self.y + i as i32;
                blocks.push((cx, cy));
                proof {
                    assert(blocks@ =~= prev + seq![(cx, cy)]);
                    assert(blocks@ =~= blocks_upto(m, px, py, n + 1));
                }
            } else {
                proof {
                    assert(blocks@ =~= blocks_upto(m, px, py, n + 1));
                }
            }
        }
        proof {
            lemma_blocks_upto_len(m, px, py, 16);
            lemma_blocks_upto_no_dup(m, px, py, 16);
            assert forall|k: int| 0 <= k < blocks@.len()
                implies self.covers(#[trigger] blocks@[k].0 as int, blocks@[k].1 as int) by {
                assert(blocks@.contains(blocks@[k]));
                lemma_blocks_upto_contains(m, px, py, 16, blocks@[k]);
            }
            assert forall|i: int, j: int|
                0 <= i < 4 && 0 <= j < 4 && mat_cell(m, i, j)
                implies blocks@.contains((((self.x + j) as i32), ((self.y + i) as i32))) by {
                let c = (((self.x + j) as i32), ((self.y + i) as i32));
                lemma_blocks_upto_contains(m, px, py, 16, c);
                assert(c.0 as int == px + j && c.1 as int == py + i);
                assert(4 * i + j < 16);
            }
        }
        blocks
    }
}

/// The seven kinds in catalog order.
pub open spec fn all_kinds() -> Seq<TetrominoType> {
    seq![
        TetrominoType::I,
        TetrominoType::O,
        TetrominoType::T,
        TetrominoType::S,
        TetrominoType::Z,
        TetrominoType::J,
        TetrominoType::L,
    ]
}

} // verus!
