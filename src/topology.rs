use vstd::prelude::*;

verus! {

/// The three classes of spring, told apart only by the neighbour offset
/// that produced them.
#[derive(Clone, Copy, Debug, PartialEq, Eq, Structural)]
pub enum SpringKind {
    /// Orthogonal neighbour one cell away.
    Stretch,
    /// Diagonal neighbour one cell away.
    Shear,
    /// Orthogonal neighbour two cells away.
    Bend,
}

/// A spring between two distinct vertices of the grid.
#[derive(Clone, Copy, Debug, PartialEq, Eq, Structural)]
pub struct Spring {
    pub index_a: u32,
    pub index_b: u32,
    pub kind: SpringKind,
}

/// Squared rest length of a spring of this kind, in units of the squared
/// grid spacing: 1 for structural, 2 for shear, 4 for bend.
pub open spec fn rest_length_sq_cells(kind: SpringKind) -> nat {
    match kind {
        SpringKind::Stretch => 1,
        SpringKind::Shear => 2,
        SpringKind::Bend => 4,
    }
}

impl SpringKind {
    /// Squared rest length in units of the squared grid spacing.
    pub fn rest_length_sq_in_cells(&self) -> (r: u32)
        ensures
            r == rest_length_sq_cells(*self),
    {
        match self {
            SpringKind::Stretch => 1,
            SpringKind::Shear => 2,
            SpringKind::Bend => 4,
        }
    }
}

/// Index of the vertex at `(row, col)` in a row-major grid of `cols` columns.
pub open spec fn grid_index(cols: int, row: int, col: int) -> int {
    row * cols + col
}

/// The springs of one neighbour offset, in row-major order of their first
/// vertex: the walk covers `n_rows` rows of `width` vertices each; the first
/// vertex of step `t` sits at row `t / width`, column `t % width + col_a`, and
/// the second vertex `drow` rows further down, at column `t % width + col_b`.
pub open spec fn family(
    cols: int,
    n_rows: int,
    width: int,
    drow: int,
    col_a: int,
    col_b: int,
    kind: SpringKind,
) -> Seq<Spring> {
    Seq::new(
        (n_rows * width) as nat,
        |t: int|
            Spring {
                index_a: grid_index(cols, t / width, t % width + col_a) as u32,
                index_b: grid_index(cols, t / width + drow, t % width + col_b) as u32,
                kind,
            },
    )
}

proof fn lemma_row_col(t: int, width: int, i: int, j: int)
    requires
        width > 0,
        0 <= j < width,
        t == i * width + j,
    ensures
        t / width == i,
        t % width == j,
{
    vstd::arithmetic::div_mod::lemma_fundamental_div_mod_converse(t, width, i, j);
}

proof fn lemma_index_bound(cols: int, rows: int, row: int, col: int)
    requires
        0 <= row < rows,
        0 <= col < cols,
    ensures
        0 <= grid_index(cols, row, col) < rows * cols,
{
    assert(row * cols + cols <= rows * cols) by (nonlinear_arith)
        requires
            0 <= row < rows,
            0 <= col < cols,
    ;
    assert(0 <= row * cols) by (nonlinear_arith)
        requires
            0 <= row,
            0 <= cols,
    ;
}

/// Appends the springs of one neighbour offset (see `family`).
fn push_family(
    springs: &mut Vec<Spring>,
    rows: u32,
    cols: u32,
    n_rows: u32,
    width: u32,
    drow: u32,
    col_a: u32,
    col_b: u32,
    kind: SpringKind,
)
    requires
        rows as int * cols as int <= u32::MAX,
        n_rows + drow <= rows,
        width + col_a <= cols,
        width + col_b <= cols,
        old(springs)@.len() + rows as int * cols as int <= usize::MAX,
    ensures
        final(springs)@ == old(springs)@ + family(
            cols as int,
            n_rows as int,
            width as int,
            drow as int,
            col_a as int,
            col_b as int,
            kind,
        ),
        final(springs)@.len() <= old(springs)@.len() + rows as int * cols as int,
{
    let ghost fam = family(
        cols as int,
        n_rows as int,
        width as int,
        drow as int,
        col_a as int,
        col_b as int,
        kind,
    );
    let ghost start = springs@;
    if width == 0 {
        assert(springs@ =~= start + fam);
        return;
    }
    let mut i: u32 = 0;
    while i < n_rows
        invariant
            0 < width,
            rows as int * cols as int <= u32::MAX,
            n_rows + drow <= rows,
            width + col_a <= cols,
            width + col_b <= cols,
            start.len() + rows as int * cols as int <= usize::MAX,
            fam == family(
                cols as int,
                n_rows as int,
                width as int,
                drow as int,
                col_a as int,
                col_b as int,
                kind,
            ),
            i <= n_rows,
            springs@ =~= start + fam.take(i as int * width as int),
        decreases n_rows - i,
    {
        let mut j: u32 = 0;
        while j < width
            invariant
                0 < width,
                rows as int * cols as int <= u32::MAX,
                n_rows + drow <= rows,
                width + col_a <= cols,
                width + col_b <= cols,
                start.len() + rows as int * cols as int <= usize::MAX,
                fam == family(
                    cols as int,
                    n_rows as int,
                    width as int,
                    drow as int,
                    col_a as int,
                    col_b as int,
                    kind,
                ),
                i < n_rows,
                j <= width,
                springs@ =~= start + fam.take(i as int * width as int + j as int),
            decreases width - j,
        {
            let ghost t = i as int * width as int + j as int;
            proof {
                lemma_row_col(t, width as int, i as int, j as int);
                lemma_index_bound(cols as int, rows as int, i as int, j as int + col_a as int);
                lemma_index_bound(
                    cols as int,
                    rows as int,
                    i as int + drow as int,
                    j as int + col_b as int,
                );
                assert(t < n_rows as int * width as int) by (nonlinear_arith)
                    requires
                        t == i as int * width as int + j as int,
                        j < width,
                        i < n_rows,
                ;
                assert(n_rows as int * width as int <= rows as int * cols as int)
                    by (nonlinear_arith)
                    requires
                        n_rows <= rows,
                        width <= cols,
                ;
            }
            let a = i * cols + j + col_a;
            let b = (i + drow) * cols + j + col_b;
            springs.push(Spring { index_a: a, index_b: b, kind });
            proof {
                assert(fam.take(t + 1) =~= fam.take(t).push(fam[t]));
            }
            j = j + 1;
        }
        proof {
            assert(i as int * width as int + width as int == (i as int + 1) * width as int)
                by (nonlinear_arith);
        }
        i = i + 1;
    }
    proof {
        assert(fam.take(n_rows as int * width as int) =~= fam);
        assert(n_rows as int * width as int <= rows as int * cols as int) by (nonlinear_arith)
            requires
                n_rows <= rows,
                width <= cols,
        ;
    }
}

/// Shape of the cloth: a `rows` by `cols` grid of vertices spread over a
/// square of side `size` (world units).
#[derive(Clone, Copy, Debug, PartialEq, Eq, Structural)]
pub struct GridConfig {
    pub rows: u32,
    pub cols: u32,
    pub size: u32,
}

/// A configuration that describes a real cloth: at least two vertices per
/// side and a positive size.
pub open spec fn valid_config(c: GridConfig) -> bool {
    c.rows >= 2 && c.cols >= 2 && c.size > 0
}

/// What the machine can hold: every vertex index fits in a `u32`, and each
/// output list fits in memory.
pub open spec fn fits_in_memory(c: GridConfig) -> bool {
    &&& c.rows as int * c.cols as int <= u32::MAX
    &&& c.rows as int * c.cols as int * 6 <= usize::MAX
}

/// Springs between orthogonal neighbours: vertical pairs, then horizontal.
pub open spec fn stretch_springs(c: GridConfig) -> Seq<Spring> {
    let (rows, cols) = (c.rows as int, c.cols as int);
    family(cols, rows - 1, cols, 1, 0, 0, SpringKind::Stretch) + family(
        cols,
        rows,
        cols - 1,
        0,
        0,
        1,
        SpringKind::Stretch,
    )
}

/// Springs between diagonal neighbours: down-right pairs, then down-left.
pub open spec fn shear_springs(c: GridConfig) -> Seq<Spring> {
    let (rows, cols) = (c.rows as int, c.cols as int);
    family(cols, rows - 1, cols - 1, 1, 0, 1, SpringKind::Shear) + family(
        cols,
        rows - 1,
        cols - 1,
        1,
        1,
        0,
        SpringKind::Shear,
    )
}

/// Springs between orthogonal neighbours two cells apart: vertical pairs,
/// then horizontal.
pub open spec fn bend_springs(c: GridConfig) -> Seq<Spring> {
    let (rows, cols) = (c.rows as int, c.cols as int);
    family(cols, rows - 2, cols, 2, 0, 0, SpringKind::Bend) + family(
        cols,
        rows,
        cols - 2,
        0,
        0,
        2,
        SpringKind::Bend,
    )
}

/// Every spring of the cloth, one per unordered pair of neighbours.
pub open spec fn spring_list(c: GridConfig) -> Seq<Spring> {
    stretch_springs(c) + shear_springs(c) + bend_springs(c)
}

/// A spring joins two distinct vertices of a grid of `n` vertices and has a
/// positive rest length.
pub open spec fn spring_ok(n: int, s: Spring) -> bool {
    &&& s.index_a != s.index_b
    &&& s.index_a < n
    &&& s.index_b < n
    &&& rest_length_sq_cells(s.kind) > 0
}

/// Every spring of `springs` is well formed in a grid of `n` vertices.
pub open spec fn all_springs_ok(n: int, springs: Seq<Spring>) -> bool {
    forall|k: int| 0 <= k < springs.len() ==> spring_ok(n, #[trigger] springs[k])
}

proof fn lemma_split(t: int, width: int, n_rows: int)
    requires
        0 <= t < n_rows * width,
        width > 0,
    ensures
        0 <= t / width < n_rows,
        0 <= t % width < width,
        t == (t / width) * width + t % width,
{
    vstd::arithmetic::div_mod::lemma_fundamental_div_mod(t, width);
    vstd::arithmetic::div_mod::lemma_mod_pos_bound(t, width);
    vstd::arithmetic::div_mod::lemma_div_pos_is_pos(t, width);
    let q = t / width;
    assert(q * width == width * q) by (nonlinear_arith);
    if q >= n_rows {
        assert(q * width >= n_rows * width) by (nonlinear_arith)
            requires
                q >= n_rows,
                width > 0,
        ;
    }
}

proof fn lemma_family_ok(
    rows: int,
    cols: int,
    n_rows: int,
    width: int,
    drow: int,
    col_a: int,
    col_b: int,
    kind: SpringKind,
)
    requires
        rows * cols <= u32::MAX,
        0 <= n_rows,
        0 <= width,
        0 <= drow,
        0 <= col_a,
        0 <= col_b,
        n_rows + drow <= rows,
        width + col_a <= cols,
        width + col_b <= cols,
        drow > 0 || col_a != col_b,
    ensures
        all_springs_ok(rows * cols, family(cols, n_rows, width, drow, col_a, col_b, kind)),
{
    let fam = family(cols, n_rows, width, drow, col_a, col_b, kind);
    assert forall|t: int| 0 <= t < fam.len() implies spring_ok(rows * cols, #[trigger] fam[t]) by {
        assert(width > 0) by {
            if width == 0 {
                assert(n_rows * width == 0) by (nonlinear_arith)
                    requires
                        width == 0,
                ;
            }
        }
        lemma_split(t, width, n_rows);
        let (i, j) = (t / width, t % width);
        lemma_index_bound(cols, rows, i, j + col_a);
        lemma_index_bound(cols, rows, i + drow, j + col_b);
        assert((i + drow) * cols == i * cols + drow * cols) by (nonlinear_arith);
        if drow > 0 {
            assert(drow * cols >= cols) by (nonlinear_arith)
                requires
                    drow > 0,
                    cols > 0,
            ;
        }
    }
}

/// Every spring of a valid grid joins two distinct vertices of the grid and
/// has a positive rest length.
pub proof fn lemma_springs_well_formed(c: GridConfig)
    requires
        valid_config(c),
        fits_in_memory(c),
    ensures
        all_springs_ok(c.rows as int * c.cols as int, spring_list(c)),
{
    let (rows, cols) = (c.rows as int, c.cols as int);
    let n = rows * cols;
    lemma_family_ok(rows, cols, rows - 1, cols, 1, 0, 0, SpringKind::Stretch);
    lemma_family_ok(rows, cols, rows, cols - 1, 0, 0, 1, SpringKind::Stretch);
    lemma_family_ok(rows, cols, rows - 1, cols - 1, 1, 0, 1, SpringKind::Shear);
    lemma_family_ok(rows, cols, rows - 1, cols - 1, 1, 1, 0, SpringKind::Shear);
    lemma_family_ok(rows, cols, rows - 2, cols, 2, 0, 0, SpringKind::Bend);
    lemma_family_ok(rows, cols, rows, cols - 2, 0, 0, 2, SpringKind::Bend);
    let all = spring_list(c);
    assert forall|k: int| 0 <= k < all.len() implies spring_ok(n, #[trigger] all[k]) by {
        let (st, sh, be) = (stretch_springs(c), shear_springs(c), bend_springs(c));
        if k < st.len() {
            assert(all[k] == st[k]);
        } else if k < st.len() + sh.len() {
            assert(all[k] == sh[k - st.len()]);
        } else {
            assert(all[k] == be[k - st.len() - sh.len()]);
        }
    }
}

/// Builds the spring list of a valid grid.
fn build_springs(c: GridConfig) -> (springs: Vec<Spring>)
    requires
        valid_config(c),
        fits_in_memory(c),
    ensures
        springs@ == spring_list(c),
{
    let (rows, cols) = (c.rows, c.cols);
    let ghost n = rows as int * cols as int;
    let mut springs: Vec<Spring> = Vec::new();
    push_family(&mut springs, rows, cols, rows - 1, cols, 1, 0, 0, SpringKind::Stretch);
    push_family(&mut springs, rows, cols, rows, cols - 1, 0, 0, 1, SpringKind::Stretch);
    push_family(&mut springs, rows, cols, rows - 1, cols - 1, 1, 0, 1, SpringKind::Shear);
    push_family(&mut springs, rows, cols, rows - 1, cols - 1, 1, 1, 0, SpringKind::Shear);
    push_family(&mut springs, rows, cols, rows - 2, cols, 2, 0, 0, SpringKind::Bend);
    push_family(&mut springs, rows, cols, rows, cols - 2, 0, 0, 2, SpringKind::Bend);
    assert(springs@ =~= spring_list(c));
    springs
}

/// A vertex of the flat rest pose, as its offset from the cloth's centre:
/// `(x_num / d, 0, z_num / d)` where `d` is the mesh's denominator.
#[derive(Clone, Copy, Debug, PartialEq, Eq, Structural)]
pub struct GridVertex {
    pub x_num: i128,
    pub z_num: i128,
}

/// Numerator of the offset of row or column `t` along one axis, over the
/// denominator `2 * (rows - 1)`: `t * size / (rows - 1) - size / 2`.
pub open spec fn offset_num(c: GridConfig, t: int) -> int {
    2 * t * c.size - c.size * (c.rows - 1)
}

/// The vertices in row-major order: vertex `k` is at row `k / cols` and
/// column `k % cols`.
pub open spec fn grid_vertices(c: GridConfig) -> Seq<GridVertex> {
    Seq::new(
        (c.rows * c.cols) as nat,
        |k: int|
            GridVertex {
                x_num: offset_num(c, k / c.cols as int) as i128,
                z_num: offset_num(c, k % c.cols as int) as i128,
            },
    )
}

/// Offset of corner `r` (0..6) of the two triangles of a cell from the
/// cell's top-left vertex.
pub open spec fn corner_offset(cols: int, r: int) -> int {
    if r == 0 {
        0
    } else if r == 1 || r == 3 {
        1
    } else if r == 4 {
        cols + 1
    } else {
        cols
    }
}

/// Entry `t` of the triangle list: corner `t % 6` of cell `t / 6`, the cells
/// taken in row-major order.
pub open spec fn triangle_entry(c: GridConfig, t: int) -> int {
    let q = t / 6;
    let w = c.cols - 1;
    grid_index(c.cols as int, q / w, q % w) + corner_offset(c.cols as int, t % 6)
}

/// Two triangles per cell, six indices, with the same winding throughout.
pub open spec fn triangle_indices(c: GridConfig) -> Seq<u32> {
    Seq::new(
        ((c.rows - 1) * (c.cols - 1) * 6) as nat,
        |t: int| triangle_entry(c, t) as u32,
    )
}

proof fn lemma_axis_bound(size: int, t: int)
    requires
        0 <= size <= u32::MAX,
        0 <= t <= u32::MAX,
    ensures
        0 <= size * t <= u32::MAX * u32::MAX,
        0 <= 2 * t * size <= 2 * u32::MAX * u32::MAX,
{
    assert(0 <= size * t <= u32::MAX * u32::MAX) by (nonlinear_arith)
        requires
            0 <= size <= u32::MAX,
            0 <= t <= u32::MAX,
    ;
    assert(2 * t * size == 2 * (size * t)) by (nonlinear_arith);
}

fn build_vertices(c: GridConfig) -> (vertices: Vec<GridVertex>)
    requires
        valid_config(c),
        fits_in_memory(c),
    ensures
        vertices@ == grid_vertices(c),
{
    let (rows, cols, size) = (c.rows, c.cols, c.size);
    let ghost all = grid_vertices(c);
    let mut vertices: Vec<GridVertex> = Vec::new();
    proof {
        lemma_axis_bound(size as int, rows as int - 1);
    }
    let half_span: i128 = size as i128 * (rows - 1) as i128;
    let mut i: u32 = 0;
    while i < rows
        invariant
            valid_config(c),
            fits_in_memory(c),
            (rows, cols, size) == (c.rows, c.cols, c.size),
            all == grid_vertices(c),
            half_span == size as int * (rows - 1),
            i <= rows,
            vertices@ =~= all.take(i as int * cols as int),
        decreases rows - i,
    {
        proof {
            assert(i as int * cols as int + cols as int <= rows as int * cols as int)
                by (nonlinear_arith)
                requires
                    i < rows,
            ;
        }
        proof {
            lemma_axis_bound(size as int, i as int);
        }
        let x_num: i128 = 2 * (i as i128) * (size as i128) - half_span;
        let mut j: u32 = 0;
        while j < cols
            invariant
                valid_config(c),
                fits_in_memory(c),
                (rows, cols, size) == (c.rows, c.cols, c.size),
                all == grid_vertices(c),
                half_span == size as int * (rows - 1),
                i < rows,
                j <= cols,
                i as int * cols as int + cols as int <= rows as int * cols as int,
                x_num == offset_num(c, i as int),
                vertices@ =~= all.take(i as int * cols as int + j as int),
            decreases cols - j,
        {
            let ghost k = i as int * cols as int + j as int;
            proof {
                lemma_row_col(k, cols as int, i as int, j as int);
            }
            proof {
                lemma_axis_bound(size as int, j as int);
            }
            let z_num: i128 = 2 * (j as i128) * (size as i128) - half_span;
            vertices.push(GridVertex { x_num, z_num });
            proof {
                assert(all.take(k + 1) =~= all.take(k).push(all[k]));
            }
            j = j + 1;
        }
        proof {
            assert(i as int * cols as int + cols as int == (i as int + 1) * cols as int)
                by (nonlinear_arith);
        }
        i = i + 1;
    }
    assert(all.take(rows as int * cols as int) =~= all);
    vertices
}

fn build_triangles(c: GridConfig) -> (indices: Vec<u32>)
    requires
        valid_config(c),
        fits_in_memory(c),
    ensures
        indices@ == triangle_indices(c),
{
    let (rows, cols) = (c.rows, c.cols);
    let ghost all = triangle_indices(c);
    let ghost w = cols as int - 1;
    let mut indices: Vec<u32> = Vec::new();
    let mut i: u32 = 0;
    while i < rows - 1
        invariant
            valid_config(c),
            fits_in_memory(c),
            (rows, cols) == (c.rows, c.cols),
            all == triangle_indices(c),
            w == cols - 1,
            i <= rows - 1,
            indices@ =~= all.take(i as int * w * 6),
        decreases rows - 1 - i,
    {
        let mut j: u32 = 0;
        while j < cols - 1
            invariant
                valid_config(c),
                fits_in_memory(c),
                (rows, cols) == (c.rows, c.cols),
                all == triangle_indices(c),
                w == cols - 1,
                i < rows - 1,
                j <= cols - 1,
                indices@ =~= all.take((i as int * w + j as int) * 6),
            decreases cols - 1 - j,
        {
            let ghost q = i as int * w + j as int;
            proof {
                lemma_row_col(q, w, i as int, j as int);
                lemma_index_bound(cols as int, rows as int, i as int + 1, j as int + 1);
                assert((i as int + 1) * cols as int == i as int * cols as int + cols as int)
                    by (nonlinear_arith);
                assert(q < (rows - 1) as int * w) by (nonlinear_arith)
                    requires
                        q == i as int * w + j as int,
                        j < w,
                        i < rows - 1,
                ;
                assert forall|r: int| 0 <= r < 6 implies (#[trigger] (q * 6 + r)) / 6 == q && (q
                    * 6 + r) % 6 == r by {
                    lemma_row_col(q * 6 + r, 6, q, r);
                }
                assert((rows - 1) as int * w * 6 <= rows as int * cols as int * 6)
                    by (nonlinear_arith)
                    requires
                        w == cols - 1,
                        rows >= 2,
                        cols >= 2,
                ;
            }
            let base = i * cols + j;
            indices.push(base);
            indices.push(base + 1);
            indices.push(base + cols);
            indices.push(base + 1);
            indices.push(base + cols + 1);
            indices.push(base + cols);
            proof {
                assert(indices@ =~= all.take(q * 6 + 6)) by {
                    assert forall|r: int| 0 <= r < 6 implies all[q * 6 + r] == #[trigger] indices@[q
                        * 6 + r] by {
                        assert((q * 6 + r) / 6 == q && (q * 6 + r) % 6 == r);
                    }
                }
                assert((i as int * w + j as int + 1) * 6 == q * 6 + 6);
            }
            j = j + 1;
        }
        proof {
            assert((i as int * w + w) * 6 == (i as int + 1) * w * 6) by (nonlinear_arith);
        }
        i = i + 1;
    }
    assert(all.take((rows - 1) as int * w * 6) =~= all);
    indices
}

/// Why a grid configuration was refused.
#[derive(Clone, Copy, Debug, PartialEq, Eq, Structural)]
pub enum BuildError {
    /// Fewer than two vertices along a side, or a size of zero.
    InvalidConfiguration,
}

/// The rest pose of the cloth: vertices, triangles and springs. Vertex
/// offsets from the centre are `GridVertex` numerators over `denominator`.
pub struct ClothMesh {
    pub config: GridConfig,
    pub denominator: u64,
    pub vertices: Vec<GridVertex>,
    pub indices: Vec<u32>,
    pub springs: Vec<Spring>,
}

/// `m` is exactly the mesh that configuration `c` describes.
pub open spec fn built_from(c: GridConfig, m: ClothMesh) -> bool {
    &&& m.config == c
    &&& m.denominator == 2 * (c.rows - 1)
    &&& m.vertices@ == grid_vertices(c)
    &&& m.indices@ == triangle_indices(c)
    &&& m.springs@ == spring_list(c)
}

/// Builds the vertices, the triangle list and the springs of the cloth that
/// `config` describes. A configuration with fewer than two vertices along a
/// side, or with a size of zero, is refused and nothing is built.
pub fn build(config: GridConfig) -> (r: Result<ClothMesh, BuildError>)
    requires
        fits_in_memory(config),
    ensures
        r is Ok <==> valid_config(config),
        r matches Err(e) ==> e == BuildError::InvalidConfiguration,
        r matches Ok(m) ==> built_from(config, m),
        r matches Ok(m) ==> all_springs_ok(
            config.rows as int * config.cols as int,
            m.springs@,
        ),
        r matches Ok(m) ==> forall|k1: int, k2: int|
            0 <= k1 < m.springs@.len() && 0 <= k2 < m.springs@.len() && k1 != k2 ==> !same_pair(
                #[trigger] m.springs@[k1],
                #[trigger] m.springs@[k2],
            ),
{
    if config.rows < 2 || config.cols < 2 || config.size == 0 {
        return Err(BuildError::InvalidConfiguration);
    }
    proof {
        lemma_springs_well_formed(config);
        lemma_one_spring_per_pair(config);
    }
    let vertices = build_vertices(config);
    let indices = build_triangles(config);
    let springs = build_springs(config);
    let denominator: u64 = 2 * (config.rows as u64 - 1);
    Ok(ClothMesh { config, denominator, vertices, indices, springs })
}

/// Number of springs of kind `k` in `s`.
pub open spec fn count_kind(s: Seq<Spring>, k: SpringKind) -> nat
    decreases s.len(),
{
    if s.len() == 0 {
        0
    } else {
        count_kind(s.drop_last(), k) + if s.last().kind == k {
            1nat
        } else {
            0nat
        }
    }
}

proof fn lemma_count_concat(a: Seq<Spring>, b: Seq<Spring>, k: SpringKind)
    ensures
        count_kind(a + b, k) == count_kind(a, k) + count_kind(b, k),
    decreases b.len(),
{
    if b.len() == 0 {
        assert(a + b =~= a);
    } else {
        assert((a + b).drop_last() =~= a + b.drop_last());
        lemma_count_concat(a, b.drop_last(), k);
    }
}

proof fn lemma_count_family(
    cols: int,
    n_rows: int,
    width: int,
    drow: int,
    col_a: int,
    col_b: int,
    kind: SpringKind,
    k: SpringKind,
)
    requires
        0 <= n_rows,
        0 <= width,
    ensures
        count_kind(family(cols, n_rows, width, drow, col_a, col_b, kind), k) == if kind == k {
            n_rows * width
        } else {
            0
        },
{
    assert(0 <= n_rows * width) by (nonlinear_arith)
        requires
            0 <= n_rows,
            0 <= width,
    ;
    lemma_count_uniform(family(cols, n_rows, width, drow, col_a, col_b, kind), kind, k);
}

proof fn lemma_count_uniform(s: Seq<Spring>, kind: SpringKind, k: SpringKind)
    requires
        forall|t: int| 0 <= t < s.len() ==> (#[trigger] s[t]).kind == kind,
    ensures
        count_kind(s, k) == if kind == k {
            s.len()
        } else {
            0
        },
    decreases s.len(),
{
    if s.len() > 0 {
        let p = s.drop_last();
        assert forall|t: int| 0 <= t < p.len() implies (#[trigger] p[t]).kind == kind by {
            assert(p[t] == s[t]);
        }
        lemma_count_uniform(p, kind, k);
    }
}

/// How many springs of each kind a valid grid has.
pub proof fn lemma_kind_counts(c: GridConfig)
    requires
        valid_config(c),
    ensures
        count_kind(spring_list(c), SpringKind::Stretch) == (c.rows - 1) * c.cols + c.rows * (
        c.cols - 1),
        count_kind(spring_list(c), SpringKind::Shear) == 2 * (c.rows - 1) * (c.cols - 1),
        count_kind(spring_list(c), SpringKind::Bend) == (c.rows - 2) * c.cols + c.rows * (
        c.cols - 2),
{
    lemma_group_counts(c, SpringKind::Stretch);
    lemma_group_counts(c, SpringKind::Shear);
    lemma_group_counts(c, SpringKind::Bend);
    let (rows, cols) = (c.rows as int, c.cols as int);
    assert(2 * (rows - 1) * (cols - 1) == (rows - 1) * (cols - 1) + (rows - 1) * (cols - 1))
        by (nonlinear_arith);
}

proof fn lemma_group_counts(c: GridConfig, k: SpringKind)
    requires
        valid_config(c),
    ensures
        count_kind(spring_list(c), k) == count_kind(stretch_springs(c), k) + count_kind(
            shear_springs(c),
            k,
        ) + count_kind(bend_springs(c), k),
        count_kind(stretch_springs(c), k) == if k == SpringKind::Stretch {
            (c.rows - 1) * c.cols + c.rows * (c.cols - 1)
        } else {
            0
        },
        count_kind(shear_springs(c), k) == if k == SpringKind::Shear {
            (c.rows - 1) * (c.cols - 1) + (c.rows - 1) * (c.cols - 1)
        } else {
            0
        },
        count_kind(bend_springs(c), k) == if k == SpringKind::Bend {
            (c.rows - 2) * c.cols + c.rows * (c.cols - 2)
        } else {
            0
        },
{
    let (rows, cols) = (c.rows as int, c.cols as int);
    lemma_count_concat(stretch_springs(c) + shear_springs(c), bend_springs(c), k);
    lemma_count_concat(stretch_springs(c), shear_springs(c), k);
    lemma_count_family(cols, rows - 1, cols, 1, 0, 0, SpringKind::Stretch, k);
    lemma_count_family(cols, rows, cols - 1, 0, 0, 1, SpringKind::Stretch, k);
    lemma_count_family(cols, rows - 1, cols - 1, 1, 0, 1, SpringKind::Shear, k);
    lemma_count_family(cols, rows - 1, cols - 1, 1, 1, 0, SpringKind::Shear, k);
    lemma_count_family(cols, rows - 2, cols, 2, 0, 0, SpringKind::Bend, k);
    lemma_count_family(cols, rows, cols - 2, 0, 0, 2, SpringKind::Bend, k);
    lemma_count_concat(
        family(cols, rows - 1, cols, 1, 0, 0, SpringKind::Stretch),
        family(cols, rows, cols - 1, 0, 0, 1, SpringKind::Stretch),
        k,
    );
    lemma_count_concat(
        family(cols, rows - 1, cols - 1, 1, 0, 1, SpringKind::Shear),
        family(cols, rows - 1, cols - 1, 1, 1, 0, SpringKind::Shear),
        k,
    );
    lemma_count_concat(
        family(cols, rows - 2, cols, 2, 0, 0, SpringKind::Bend),
        family(cols, rows, cols - 2, 0, 0, 2, SpringKind::Bend),
        k,
    );
}

/// A square grid of `n` vertices per side has `n * n` vertices and
/// `(n - 1) * (n - 1) * 6` triangle indices.
pub proof fn lemma_square_grid_sizes(n: u32, size: u32, m: ClothMesh)
    requires
        built_from(GridConfig { rows: n, cols: n, size }, m),
    ensures
        m.vertices@.len() == n * n,
        m.indices@.len() == (n - 1) * (n - 1) * 6,
{
}

/// A square grid of `n` vertices per side has `2 * n * (n - 1)` stretch
/// springs, one per pair of orthogonal neighbours.
pub proof fn lemma_square_stretch_count(n: u32, size: u32, m: ClothMesh)
    requires
        valid_config(GridConfig { rows: n, cols: n, size }),
        built_from(GridConfig { rows: n, cols: n, size }, m),
    ensures
        count_kind(m.springs@, SpringKind::Stretch) == 2 * n * (n - 1),
{
    lemma_kind_counts(GridConfig { rows: n, cols: n, size });
    assert((n - 1) * n + n * (n - 1) == 2 * n * (n - 1)) by (nonlinear_arith);
}

/// Building is a function of the configuration alone: two builds from the
/// same configuration give the same vertices, triangles and springs.
pub proof fn lemma_build_deterministic(c: GridConfig, m1: ClothMesh, m2: ClothMesh)
    requires
        built_from(c, m1),
        built_from(c, m2),
    ensures
        m1.config == m2.config,
        m1.denominator == m2.denominator,
        m1.vertices@ == m2.vertices@,
        m1.indices@ == m2.indices@,
        m1.springs@ == m2.springs@,
{
}

/// Springs `s` and `t` join the same two vertices, in either order.
pub open spec fn same_pair(s: Spring, t: Spring) -> bool {
    (s.index_a == t.index_a && s.index_b == t.index_b) || (s.index_a == t.index_b && s.index_b
        == t.index_a)
}

spec fn fam_rows(c: GridConfig, f: int) -> int {
    if f == 1 || f == 5 {
        c.rows as int
    } else if f == 4 {
        c.rows - 2
    } else {
        c.rows - 1
    }
}

spec fn fam_width(c: GridConfig, f: int) -> int {
    if f == 0 || f == 4 {
        c.cols as int
    } else if f == 5 {
        c.cols - 2
    } else {
        c.cols - 1
    }
}

spec fn fam_drow(f: int) -> int {
    if f == 1 || f == 5 {
        0
    } else if f == 4 {
        2
    } else {
        1
    }
}

spec fn fam_col_a(f: int) -> int {
    if f == 3 {
        1
    } else {
        0
    }
}

spec fn fam_col_b(f: int) -> int {
    if f == 1 || f == 2 {
        1
    } else if f == 5 {
        2
    } else {
        0
    }
}

spec fn fam_kind(f: int) -> SpringKind {
    if f <= 1 {
        SpringKind::Stretch
    } else if f <= 3 {
        SpringKind::Shear
    } else {
        SpringKind::Bend
    }
}

spec fn fam(c: GridConfig, f: int) -> Seq<Spring> {
    family(
        c.cols as int,
        fam_rows(c, f),
        fam_width(c, f),
        fam_drow(f),
        fam_col_a(f),
        fam_col_b(f),
        fam_kind(f),
    )
}

spec fn fam_offset(c: GridConfig, f: int) -> int
    decreases f,
{
    if f <= 0 {
        0
    } else {
        fam_offset(c, f - 1) + fam(c, f - 1).len()
    }
}

proof fn lemma_grid_unique(cols: int, r1: int, c1: int, r2: int, c2: int)
    requires
        0 <= c1 < cols,
        0 <= c2 < cols,
        r1 * cols + c1 == r2 * cols + c2,
    ensures
        r1 == r2,
        c1 == c2,
{
    let x = r1 * cols + c1;
    lemma_row_col(x, cols, r1, c1);
    lemma_row_col(x, cols, r2, c2);
}

/// Where spring `t` of family `f` sits in the grid.
proof fn lemma_fam_elem(c: GridConfig, f: int, t: int)
    requires
        valid_config(c),
        fits_in_memory(c),
        0 <= f < 6,
        0 <= t < fam(c, f).len(),
    ensures
        fam_width(c, f) > 0,
        0 <= t / fam_width(c, f),
        0 <= t % fam_width(c, f) + fam_col_a(f) < c.cols,
        0 <= t % fam_width(c, f) + fam_col_b(f) < c.cols,
        t == (t / fam_width(c, f)) * fam_width(c, f) + t % fam_width(c, f),
        fam(c, f)[t].index_a as int == (t / fam_width(c, f)) * c.cols + t % fam_width(c, f)
            + fam_col_a(f),
        fam(c, f)[t].index_b as int == (t / fam_width(c, f) + fam_drow(f)) * c.cols + t
            % fam_width(c, f) + fam_col_b(f),
        fam(c, f)[t].index_a < fam(c, f)[t].index_b,
{
    let (rows, cols) = (c.rows as int, c.cols as int);
    let (n_rows, w) = (fam_rows(c, f), fam_width(c, f));
    let (dr, ca, cb) = (fam_drow(f), fam_col_a(f), fam_col_b(f));
    assert(w > 0) by {
        if w <= 0 {
            assert(n_rows * w <= 0) by (nonlinear_arith)
                requires
                    n_rows >= 0,
                    w <= 0,
            ;
        }
    }
    lemma_split(t, w, n_rows);
    let (i, j) = (t / w, t % w);
    lemma_index_bound(cols, rows, i, j + ca);
    lemma_index_bound(cols, rows, i + dr, j + cb);
    assert((i + dr) * cols == i * cols + dr * cols) by (nonlinear_arith);
    assert(dr * cols + cb - ca > 0) by (nonlinear_arith)
        requires
            (dr == 0 && cb > ca) || (dr >= 1 && cols >= 2 && cb - ca >= -1),
    ;
}

/// Springs at two different places of the list join different pairs.
proof fn lemma_fam_distinct(c: GridConfig, f1: int, t1: int, f2: int, t2: int)
    requires
        valid_config(c),
        fits_in_memory(c),
        0 <= f1 < 6,
        0 <= f2 < 6,
        0 <= t1 < fam(c, f1).len(),
        0 <= t2 < fam(c, f2).len(),
        f1 != f2 || t1 != t2,
    ensures
        !same_pair(fam(c, f1)[t1], fam(c, f2)[t2]),
{
    let cols = c.cols as int;
    lemma_fam_elem(c, f1, t1);
    lemma_fam_elem(c, f2, t2);
    let (s1, s2) = (fam(c, f1)[t1], fam(c, f2)[t2]);
    if same_pair(s1, s2) {
        assert(s1.index_a == s2.index_a && s1.index_b == s2.index_b);
        let (w1, w2) = (fam_width(c, f1), fam_width(c, f2));
        let (i1, j1, i2, j2) = (t1 / w1, t1 % w1, t2 / w2, t2 % w2);
        lemma_grid_unique(cols, i1, j1 + fam_col_a(f1), i2, j2 + fam_col_a(f2));
        lemma_grid_unique(
            cols,
            i1 + fam_drow(f1),
            j1 + fam_col_b(f1),
            i2 + fam_drow(f2),
            j2 + fam_col_b(f2),
        );
        assert(f1 == f2);
        assert(t1 == t2);
    }
}

proof fn lemma_locate(c: GridConfig, k: int) -> (r: (int, int))
    requires
        valid_config(c),
        0 <= k < spring_list(c).len(),
    ensures
        0 <= r.0 < 6,
        0 <= r.1 < fam(c, r.0).len(),
        k == fam_offset(c, r.0) + r.1,
        spring_list(c)[k] == fam(c, r.0)[r.1],
{
    let all = fam(c, 0) + fam(c, 1) + fam(c, 2) + fam(c, 3) + fam(c, 4) + fam(c, 5);
    assert(spring_list(c) =~= all);
    assert(fam_offset(c, 0) == 0);
    assert(fam_offset(c, 1) == fam(c, 0).len());
    assert(fam_offset(c, 2) == fam_offset(c, 1) + fam(c, 1).len());
    assert(fam_offset(c, 3) == fam_offset(c, 2) + fam(c, 2).len());
    assert(fam_offset(c, 4) == fam_offset(c, 3) + fam(c, 3).len());
    assert(fam_offset(c, 5) == fam_offset(c, 4) + fam(c, 4).len());
    let f = if k < fam_offset(c, 1) {
        0
    } else if k < fam_offset(c, 2) {
        1
    } else if k < fam_offset(c, 3) {
        2
    } else if k < fam_offset(c, 4) {
        3
    } else if k < fam_offset(c, 5) {
        4
    } else {
        5
    };
    (f, k - fam_offset(c, f))
}

/// No two springs of a valid grid join the same pair of vertices: each
/// unordered pair of neighbours gets exactly one spring.
pub proof fn lemma_one_spring_per_pair(c: GridConfig)
    requires
        valid_config(c),
        fits_in_memory(c),
    ensures
        forall|k1: int, k2: int|
            0 <= k1 < spring_list(c).len() && 0 <= k2 < spring_list(c).len() && k1 != k2
                ==> !same_pair(#[trigger] spring_list(c)[k1], #[trigger] spring_list(c)[k2]),
{
    assert forall|k1: int, k2: int|
        0 <= k1 < spring_list(c).len() && 0 <= k2 < spring_list(c).len() && k1
            != k2 implies !same_pair(
        #[trigger] spring_list(c)[k1],
        #[trigger] spring_list(c)[k2],
    ) by {
        let (f1, t1) = lemma_locate(c, k1);
        let (f2, t2) = lemma_locate(c, k2);
        lemma_fam_distinct(c, f1, t1, f2, t2);
    }
}

} // verus!
