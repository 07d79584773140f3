use rand::Rng;
use vstd::prelude::*;
use vstd::wrapping::i64_specs::{wrapping_add, wrapping_mul, wrapping_sub};

verus! {

/// The ways an operation on matrices can be refused: every one of them is a
/// shape mismatch, found before any work is done.
#[derive(Debug, Clone, Copy, PartialEq, Eq, Structural)]
pub enum MatrixError {
    /// A grid handed to a constructor is empty or has rows of unequal length.
    ShapeError,
    /// The left operand's column count differs from the right operand's row count.
    MultiplicationError,
    /// The operands of an elementwise sum differ in shape.
    AdditionError,
    /// The operands of an elementwise product differ in shape.
    DotMultiplicationError,
    /// The operands of an elementwise difference differ in shape.
    SubtractionError,
}

/// A dense `rows` by `cols` grid of integers, stored row by row.
#[derive(Clone, Debug)]
pub struct Matrix {
    pub rows: usize,
    pub cols: usize,
    pub data: Vec<Vec<i64>>,
}

/// `g` has exactly `rows` rows of `cols` entries each.
pub open spec fn is_grid(g: Seq<Seq<i64>>, rows: nat, cols: nat) -> bool {
    &&& g.len() == rows
    &&& forall|i: int| 0 <= i < rows ==> #[trigger] g[i].len() == cols
}

/// The `rows` by `cols` grid whose every entry is `v`.
pub open spec fn filled_grid(rows: nat, cols: nat, v: i64) -> Seq<Seq<i64>> {
    Seq::new(rows, |i: int| Seq::new(cols, |j: int| v))
}

/// The `rows` by `cols` grid with ones on the main diagonal and zeros elsewhere.
pub open spec fn identity_grid(rows: nat, cols: nat) -> Seq<Seq<i64>> {
    Seq::new(rows, |i: int| Seq::new(cols, |j: int| if i == j { 1i64 } else { 0i64 }))
}

/// The transpose of the `rows` by `cols` grid `g`: `cols` rows of `rows` entries.
pub open spec fn transpose_grid(g: Seq<Seq<i64>>, rows: nat, cols: nat) -> Seq<Seq<i64>> {
    Seq::new(cols, |j: int| Seq::new(rows, |i: int| g[i][j]))
}

/// Entrywise wrapping sum of two `rows` by `cols` grids.
pub open spec fn sum_grid(a: Seq<Seq<i64>>, b: Seq<Seq<i64>>, rows: nat, cols: nat) -> Seq<Seq<i64>> {
    Seq::new(rows, |i: int| Seq::new(cols, |j: int| wrapping_add(a[i][j], b[i][j])))
}

/// Entrywise wrapping difference of two `rows` by `cols` grids.
pub open spec fn difference_grid(a: Seq<Seq<i64>>, b: Seq<Seq<i64>>, rows: nat, cols: nat) -> Seq<Seq<i64>> {
    Seq::new(rows, |i: int| Seq::new(cols, |j: int| wrapping_sub(a[i][j], b[i][j])))
}

/// Entrywise (Hadamard) wrapping product of two `rows` by `cols` grids.
pub open spec fn hadamard_grid(a: Seq<Seq<i64>>, b: Seq<Seq<i64>>, rows: nat, cols: nat) -> Seq<Seq<i64>> {
    Seq::new(rows, |i: int| Seq::new(cols, |j: int| wrapping_mul(a[i][j], b[i][j])))
}

/// The running sum `a[i][0] * b[0][j] + ... + a[i][n - 1] * b[n - 1][j]`,
/// accumulated left to right in wrapping arithmetic.
pub open spec fn dot(a: Seq<Seq<i64>>, b: Seq<Seq<i64>>, i: int, j: int, n: nat) -> i64
    decreases n,
{
    if n == 0 {
        0
    } else {
        wrapping_add(dot(a, b, i, j, (n - 1) as nat), wrapping_mul(a[i][n - 1], b[n - 1][j]))
    }
}

/// The product of a `rows` by `inner` grid and an `inner` by `cols` grid.
pub open spec fn product_grid(a: Seq<Seq<i64>>, b: Seq<Seq<i64>>, rows: nat, inner: nat, cols: nat) -> Seq<Seq<i64>> {
    Seq::new(rows, |i: int| Seq::new(cols, |j: int| dot(a, b, i, j, inner)))
}

/// `h` is what applying `f` to each entry of the `rows` by `cols` grid `g` may give.
pub open spec fn maps_to<F: Fn(i64) -> i64>(f: F, g: Seq<Seq<i64>>, h: Seq<Seq<i64>>, rows: nat, cols: nat) -> bool {
    &&& is_grid(h, rows, cols)
    &&& forall|i: int, j: int| 0 <= i < rows && 0 <= j < cols ==> call_ensures(f, (g[i][j],), #[trigger] h[i][j])
}

/// The entrywise operations that `add`, `subtract` and `dot_multiply` share.
enum Entrywise {
    Sum,
    Difference,
    Product,
}

spec fn apply_entrywise(op: Entrywise, x: i64, y: i64) -> i64 {
    match op {
        Entrywise::Sum => wrapping_add(x, y),
        Entrywise::Difference => wrapping_sub(x, y),
        Entrywise::Product => wrapping_mul(x, y),
    }
}

fn entrywise(op: &Entrywise, x: i64, y: i64) -> (r: i64)
    ensures
        r == apply_entrywise(*op, x, y),
{
    match op {
        Entrywise::Sum => x.wrapping_add(y),
        Entrywise::Difference => x.wrapping_sub(y),
        Entrywise::Product => x.wrapping_mul(y),
    }
}

impl View for Matrix {
    type V = Seq<Seq<i64>>;

    open spec fn view(&self) -> Seq<Seq<i64>> {
        self.data@.map_values(|r: Vec<i64>| r@)
    }
}

/// Relies on rand's `thread_rng` and `Rng::gen_range`: a value drawn uniformly
/// from the non-empty range `-1..=1`, which `gen_range` never leaves.
#[verifier::external_body]
fn random_unit() -> (r: i64)
    ensures
        -1 <= r <= 1,
{
    rand::thread_rng().gen_range(-1i64..=1)
}

/// One row of `n` copies of `v`.
fn filled_row(n: usize, v: i64) -> (r: Vec<i64>)
    ensures
        r@ == Seq::new(n as nat, |j: int| v),
{
    let mut r: Vec<i64> = Vec::new();
    for j in 0..n
        invariant
            r@ == Seq::new(j as nat, |k: int| v),
    {
        r.push(v);
        assert(r@ =~= Seq::new((j + 1) as nat, |k: int| v));
    }
    r
}

impl Matrix {
    /// The data holds `rows` rows of `cols` entries each.
    pub open spec fn wf(&self) -> bool {
        &&& self.data@.len() == self.rows
        &&& forall|i: int| 0 <= i < self.rows ==> #[trigger] self.data@[i]@.len() == self.cols
    }

    /// A matrix of the given shape with every entry `v`.
    fn filled(rows: usize, cols: usize, v: i64) -> (r: Matrix)
        ensures
            r.wf(),
            r.rows == rows,
            r.cols == cols,
            r@ == filled_grid(rows as nat, cols as nat, v),
    {
        let mut data: Vec<Vec<i64>> = Vec::new();
        for i in 0..rows
            invariant
                data.len() == i,
                forall|k: int| 0 <= k < i ==> #[trigger] data@[k]@ == Seq::new(cols as nat, |j: int| v),
        {
            let row = filled_row(cols, v);
            data.push(row);
        }
        let r = Matrix { rows, cols, data };
        assert(r@ =~~= filled_grid(rows as nat, cols as nat, v));
        r
    }

    /// The `rows` by `cols` matrix of zeros.
    pub fn zeros(rows: usize, cols: usize) -> (r: Matrix)
        ensures
            r.wf(),
            r.rows == rows,
            r.cols == cols,
            r@ == filled_grid(rows as nat, cols as nat, 0),
    {
        Matrix::filled(rows, cols, 0)
    }

    /// The `rows` by `cols` matrix of ones.
    pub fn ones(rows: usize, cols: usize) -> (r: Matrix)
        ensures
            r.wf(),
            r.rows == rows,
            r.cols == cols,
            r@ == filled_grid(rows as nat, cols as nat, 1),
    {
        Matrix::filled(rows, cols, 1)
    }

    /// A `rows` by `cols` matrix whose entries are drawn independently and
    /// uniformly from `-1`, `0` and `1`.
    pub fn random(rows: usize, cols: usize) -> (r: Matrix)
        ensures
            r.wf(),
            r.rows == rows,
            r.cols == cols,
            forall|i: int, j: int| 0 <= i < rows && 0 <= j < cols ==> -1 <= #[trigger] r@[i][j] <= 1,
    {
        let mut data: Vec<Vec<i64>> = Vec::new();
        for i in 0..rows
            invariant
                data.len() == i,
                forall|k: int| 0 <= k < i ==> (#[trigger] data@[k]@).len() == cols,
                forall|k: int, j: int| 0 <= k < i && 0 <= j < cols ==> -1 <= #[trigger] data@[k]@[j] <= 1,
        {
            let mut row: Vec<i64> = Vec::new();
            for j in 0..cols
                invariant
                    row.len() == j,
                    forall|l: int| 0 <= l < j ==> -1 <= #[trigger] row@[l] <= 1,
            {
                row.push(random_unit());
            }
            data.push(row);
        }
        Matrix { rows, cols, data }
    }

    /// The `rows` by `cols` matrix with ones on its main diagonal and zeros elsewhere.
    pub fn diagonal(rows: usize, cols: usize) -> (r: Matrix)
        ensures
            r.wf(),
            r.rows == rows,
            r.cols == cols,
            r@ == identity_grid(rows as nat, cols as nat),
    {
        let mut data: Vec<Vec<i64>> = Vec::new();
        for i in 0..rows
            invariant
                data.len() == i,
                forall|k: int| 0 <= k < i ==> (#[trigger] data@[k]@).len() == cols,
                forall|k: int, j: int| 0 <= k < i && 0 <= j < cols ==>
                    #[trigger] data@[k]@[j] == (if k == j { 1i64 } else { 0i64 }),
        {
            let mut row: Vec<i64> = Vec::new();
            for j in 0..cols
                invariant
                    row.len() == j,
                    forall|l: int| 0 <= l < j ==> #[trigger] row@[l] == (if i == l { 1i64 } else { 0i64 }),
            {
                if i == j {
                    row.push(1);
                } else {
                    row.push(0);
                }
            }
            data.push(row);
        }
        let m = Matrix { rows, cols, data };
        assert(m@ =~~= identity_grid(rows as nat, cols as nat));
        m
    }

    /// Wraps a grid of rows as a matrix. The grid must have at least one row,
    /// and all its rows must be as long as the first.
    pub fn from(data: Vec<Vec<i64>>) -> (r: Result<Matrix, MatrixError>)
        ensures
            r is Err <==> (data@.len() == 0 || exists|i: int|
                0 <= i < data@.len() && #[trigger] data@[i]@.len() != data@[0]@.len()),
            r is Err ==> r == Err::<Matrix, MatrixError>(MatrixError::ShapeError),
            r matches Ok(m) ==> m.wf() && m.rows == data@.len() && m.cols == data@[0]@.len()
                && m@ == data@.map_values(|row: Vec<i64>| row@),
    {
        if data.len() == 0 {
            return Err(MatrixError::ShapeError);
        }
        let cols = data[0].len();
        for i in 0..data.len()
            invariant
                cols == data@[0]@.len(),
                forall|k: int| 0 <= k < i ==> #[trigger] data@[k]@.len() == cols,
        {
            if data[i].len() != cols {
                return Err(MatrixError::ShapeError);
            }
        }
        Ok(Matrix { rows: data.len(), cols, data })
    }

    /// Applies `f` to every entry, giving a new matrix of the same shape.
    pub fn map<F: Fn(i64) -> i64>(&self, f: &F) -> (r: Matrix)
        requires
            self.wf(),
            forall|x: i64| call_requires(*f, (x,)),
        ensures
            r.wf(),
            r.rows == self.rows,
            r.cols == self.cols,
            maps_to(*f, self@, r@, self.rows as nat, self.cols as nat),
    {
        let mut data: Vec<Vec<i64>> = Vec::new();
        for i in 0..self.rows
            invariant
                self.wf(),
                forall|x: i64| call_requires(*f, (x,)),
                data.len() == i,
                forall|k: int| 0 <= k < i ==> (#[trigger] data@[k]@).len() == self.cols,
                forall|k: int, j: int| 0 <= k < i && 0 <= j < self.cols ==>
                    call_ensures(*f, (self@[k][j],), #[trigger] data@[k]@[j]),
        {
            let mut row: Vec<i64> = Vec::new();
            for j in 0..self.cols
                invariant
                    self.wf(),
                    forall|x: i64| call_requires(*f, (x,)),
                    0 <= i < self.rows,
                    row.len() == j,
                    forall|l: int| 0 <= l < j ==> call_ensures(*f, (self@[i as int][l],), #[trigger] row@[l]),
            {
                let y = f(self.data[i][j]);
                row.push(y);
            }
            data.push(row);
        }
        Matrix { rows: self.rows, cols: self.cols, data }
    }

    /// Combines the entries of two matrices of one shape pairwise with `op`.
    fn combine(&self, other: &Matrix, op: Entrywise) -> (r: Matrix)
        requires
            self.wf(),
            other.wf(),
            self.rows == other.rows,
            self.cols == other.cols,
        ensures
            r.wf(),
            r.rows == self.rows,
            r.cols == self.cols,
            forall|i: int, j: int| 0 <= i < self.rows && 0 <= j < self.cols ==>
                #[trigger] r@[i][j] == apply_entrywise(op, self@[i][j], other@[i][j]),
    {
        let mut data: Vec<Vec<i64>> = Vec::new();
        for i in 0..self.rows
            invariant
                self.wf(),
                other.wf(),
                self.rows == other.rows,
                self.cols == other.cols,
                data.len() == i,
                forall|k: int| 0 <= k < i ==> (#[trigger] data@[k]@).len() == self.cols,
                forall|k: int, j: int| 0 <= k < i && 0 <= j < self.cols ==>
                    #[trigger] data@[k]@[j] == apply_entrywise(op, self@[k][j], other@[k][j]),
        {
            let mut row: Vec<i64> = Vec::new();
            for j in 0..self.cols
                invariant
                    self.wf(),
                    other.wf(),
                    self.rows == other.rows,
                    self.cols == other.cols,
                    0 <= i < self.rows,
                    row.len() == j,
                    forall|l: int| 0 <= l < j ==>
                        #[trigger] row@[l] == apply_entrywise(op, self@[i as int][l], other@[i as int][l]),
            {
                let x = entrywise(&op, self.data[i][j], other.data[i][j]);
                row.push(x);
            }
            data.push(row);
        }
        Matrix { rows: self.rows, cols: self.cols, data }
    }

    /// The entrywise sum of two matrices of one shape.
    pub fn add(&self, other: &Matrix) -> (r: Result<Matrix, MatrixError>)
        requires
            self.wf(),
            other.wf(),
        ensures
            r is Err <==> (self.rows != other.rows || self.cols != other.cols),
            r is Err ==> r == Err::<Matrix, MatrixError>(MatrixError::AdditionError),
            r matches Ok(m) ==> m.wf() && m.rows == self.rows && m.cols == self.cols
                && m@ == sum_grid(self@, other@, self.rows as nat, self.cols as nat),
    {
        if self.rows != other.rows || self.cols != other.cols {
            return Err(MatrixError::AdditionError);
        }
        let m = self.combine(other, Entrywise::Sum);
        assert(m@ =~~= sum_grid(self@, other@, self.rows as nat, self.cols as nat));
        Ok(m)
    }

    /// The entrywise difference of two matrices of one shape.
    pub fn subtract(&self, other: &Matrix) -> (r: Result<Matrix, MatrixError>)
        requires
            self.wf(),
            other.wf(),
        ensures
            r is Err <==> (self.rows != other.rows || self.cols != other.cols),
            r is Err ==> r == Err::<Matrix, MatrixError>(MatrixError::SubtractionError),
            r matches Ok(m) ==> m.wf() && m.rows == self.rows && m.cols == self.cols
                && m@ == difference_grid(self@, other@, self.rows as nat, self.cols as nat),
    {
        if self.rows != other.rows || self.cols != other.cols {
            return Err(MatrixError::SubtractionError);
        }
        let m = self.combine(other, Entrywise::Difference);
        assert(m@ =~~= difference_grid(self@, other@, self.rows as nat, self.cols as nat));
        Ok(m)
    }

    /// The entrywise (Hadamard) product of two matrices of one shape.
    pub fn dot_multiply(&self, other: &Matrix) -> (r: Result<Matrix, MatrixError>)
        requires
            self.wf(),
            other.wf(),
        ensures
            r is Err <==> (self.rows != other.rows || self.cols != other.cols),
            r is Err ==> r == Err::<Matrix, MatrixError>(MatrixError::DotMultiplicationError),
            r matches Ok(m) ==> m.wf() && m.rows == self.rows && m.cols == self.cols
                && m@ == hadamard_grid(self@, other@, self.rows as nat, self.cols as nat),
    {
        if self.rows != other.rows || self.cols != other.cols {
            return Err(MatrixError::DotMultiplicationError);
        }
        let m = self.combine(other, Entrywise::Product);
        assert(m@ =~~= hadamard_grid(self@, other@, self.rows as nat, self.cols as nat));
        Ok(m)
    }

    /// The matrix product `self * other`; each entry is a running sum over the
    /// shared dimension, written only once that sum is complete.
    pub fn multiply(&self, other: &Matrix) -> (r: Result<Matrix, MatrixError>)
        requires
            self.wf(),
            other.wf(),
        ensures
            r is Err <==> self.cols != other.rows,
            r is Err ==> r == Err::<Matrix, MatrixError>(MatrixError::MultiplicationError),
            r matches Ok(m) ==> m.wf() && m.rows == self.rows && m.cols == other.cols
                && m@ == product_grid(self@, other@, self.rows as nat, self.cols as nat, other.cols as nat),
    {
        if self.cols != other.rows {
            return Err(MatrixError::MultiplicationError);
        }
        let mut data: Vec<Vec<i64>> = Vec::new();
        for i in 0..self.rows
            invariant
                self.wf(),
                other.wf(),
                self.cols == other.rows,
                data.len() == i,
                forall|k: int| 0 <= k < i ==> (#[trigger] data@[k]@).len() == other.cols,
                forall|k: int, j: int| 0 <= k < i && 0 <= j < other.cols ==>
                    #[trigger] data@[k]@[j] == dot(self@, other@, k, j, self.cols as nat),
        {
            let mut row: Vec<i64> = Vec::new();
            for j in 0..other.cols
                invariant
                    self.wf(),
                    other.wf(),
                    self.cols == other.rows,
                    0 <= i < self.rows,
                    row.len() == j,
                    forall|l: int| 0 <= l < j ==>
                        #[trigger] row@[l] == dot(self@, other@, i as int, l, self.cols as nat),
            {
                let mut sum: i64 = 0;
                for k in 0..self.cols
                    invariant
                        self.wf(),
                        other.wf(),
                        self.cols == other.rows,
                        0 <= i < self.rows,
                        0 <= j < other.cols,
                        sum == dot(self@, other@, i as int, j as int, k as nat),
                {
                    sum = sum.wrapping_add(self.data[i][k].wrapping_mul(other.data[k][j]));
                }
                row.push(sum);
            }
            data.push(row);
        }
        let m = Matrix { rows: self.rows, cols: other.cols, data };
        assert(m@ =~~= product_grid(self@, other@, self.rows as nat, self.cols as nat, other.cols as nat));
        Ok(m)
    }

    /// The transpose: a `cols` by `rows` matrix whose entry `[j][i]` is `self[i][j]`.
    pub fn transpose(&self) -> (r: Matrix)
        requires
            self.wf(),
        ensures
            r.wf(),
            r.rows == self.cols,
            r.cols == self.rows,
            r@ == transpose_grid(self@, self.rows as nat, self.cols as nat),
    {
        let mut data: Vec<Vec<i64>> = Vec::new();
        for j in 0..self.cols
            invariant
                self.wf(),
                data.len() == j,
                forall|k: int| 0 <= k < j ==> (#[trigger] data@[k]@).len() == self.rows,
                forall|k: int, i: int| 0 <= k < j && 0 <= i < self.rows ==>
                    #[trigger] data@[k]@[i] == self@[i][k],
        {
            let mut row: Vec<i64> = Vec::new();
            for i in 0..self.rows
                invariant
                    self.wf(),
                    0 <= j < self.cols,
                    row.len() == i,
                    forall|l: int| 0 <= l < i ==> #[trigger] row@[l] == self@[l][j as int],
            {
                row.push(self.data[i][j]);
            }
            data.push(row);
        }
        let m = Matrix { rows: self.cols, cols: self.rows, data };
        assert(m@ =~~= transpose_grid(self@, self.rows as nat, self.cols as nat));
        m
    }
}

} // verus!
