//! Algebraic laws of the matrix operations, stated over the grids that their
//! contracts describe.
use crate::matrix::{
    difference_grid, dot, filled_grid, hadamard_grid, maps_to, product_grid, sum_grid,
    transpose_grid, Matrix,
};
use vstd::prelude::*;
use vstd::wrapping::i64_specs::{wrapping_add, wrapping_mul, wrapping_sub};

verus! {

proof fn lemma_wrapping_mul_commutes(x: i64, y: i64)
    ensures
        wrapping_mul(x, y) == wrapping_mul(y, x),
{
    assert(x * y == y * x) by (nonlinear_arith);
}

/// Each running sum of `a * b` equals the matching running sum of `bᵗ * aᵗ`.
proof fn lemma_dot_of_transposes(a: Matrix, b: Matrix, i: int, j: int, n: nat)
    requires
        a.wf(),
        b.wf(),
        a.cols == b.rows,
        0 <= i < a.rows,
        0 <= j < b.cols,
        n <= a.cols,
    ensures
        dot(a@, b@, i, j, n) == dot(
            transpose_grid(b@, b.rows as nat, b.cols as nat),
            transpose_grid(a@, a.rows as nat, a.cols as nat),
            j,
            i,
            n,
        ),
    decreases n,
{
    if n > 0 {
        lemma_dot_of_transposes(a, b, i, j, (n - 1) as nat);
        lemma_wrapping_mul_commutes(a@[i][n - 1], b@[n - 1][j]);
    }
}

/// The transpose of a product is the product of the transposes taken in the
/// reverse order: `(A·B)ᵗ == Bᵗ·Aᵗ`.
pub proof fn lemma_transpose_of_product(a: Matrix, b: Matrix)
    requires
        a.wf(),
        b.wf(),
        a.cols == b.rows,
    ensures
        transpose_grid(
            product_grid(a@, b@, a.rows as nat, a.cols as nat, b.cols as nat),
            a.rows as nat,
            b.cols as nat,
        ) == product_grid(
            transpose_grid(b@, b.rows as nat, b.cols as nat),
            transpose_grid(a@, a.rows as nat, a.cols as nat),
            b.cols as nat,
            b.rows as nat,
            a.rows as nat,
        ),
{
    assert forall|j: int, i: int| 0 <= j < b.cols && 0 <= i < a.rows implies dot(a@, b@, i, j, a.cols as nat)
        == dot(
        transpose_grid(b@, b.rows as nat, b.cols as nat),
        transpose_grid(a@, a.rows as nat, a.cols as nat),
        j,
        i,
        b.rows as nat,
    ) by {
        lemma_dot_of_transposes(a, b, i, j, a.cols as nat);
    }
    assert(transpose_grid(
        product_grid(a@, b@, a.rows as nat, a.cols as nat, b.cols as nat),
        a.rows as nat,
        b.cols as nat,
    ) =~~= product_grid(
        transpose_grid(b@, b.rows as nat, b.cols as nat),
        transpose_grid(a@, a.rows as nat, a.cols as nat),
        b.cols as nat,
        b.rows as nat,
        a.rows as nat,
    ));
}

/// Transposing twice gives back the matrix: `(Mᵗ)ᵗ == M`.
pub proof fn lemma_transpose_twice(m: Matrix)
    requires
        m.wf(),
    ensures
        transpose_grid(transpose_grid(m@, m.rows as nat, m.cols as nat), m.cols as nat, m.rows as nat)
            == m@,
{
    assert(transpose_grid(transpose_grid(m@, m.rows as nat, m.cols as nat), m.cols as nat, m.rows as nat)
        =~~= m@);
}

/// Subtracting what was added gives back the first operand:
/// `subtract(add(A, B), B) == A`, exactly, since both wrap.
pub proof fn lemma_subtract_undoes_add(a: Matrix, b: Matrix)
    requires
        a.wf(),
        b.wf(),
        a.rows == b.rows,
        a.cols == b.cols,
    ensures
        difference_grid(sum_grid(a@, b@, a.rows as nat, a.cols as nat), b@, a.rows as nat, a.cols as nat)
            == a@,
{
    assert forall|i: int, j: int| 0 <= i < a.rows && 0 <= j < a.cols implies wrapping_sub(
        wrapping_add(a@[i][j], b@[i][j]),
        b@[i][j],
    ) == a@[i][j] by {}
    assert(difference_grid(sum_grid(a@, b@, a.rows as nat, a.cols as nat), b@, a.rows as nat, a.cols as nat)
        =~~= a@);
}

/// The entrywise product is commutative: `A ∘ B == B ∘ A`.
pub proof fn lemma_dot_multiply_commutes(a: Matrix, b: Matrix)
    requires
        a.wf(),
        b.wf(),
        a.rows == b.rows,
        a.cols == b.cols,
    ensures
        hadamard_grid(a@, b@, a.rows as nat, a.cols as nat) == hadamard_grid(b@, a@, a.rows as nat, a.cols as nat),
{
    assert forall|i: int, j: int| 0 <= i < a.rows && 0 <= j < a.cols implies wrapping_mul(a@[i][j], b@[i][j])
        == wrapping_mul(b@[i][j], a@[i][j]) by {
        lemma_wrapping_mul_commutes(a@[i][j], b@[i][j]);
    }
    assert(hadamard_grid(a@, b@, a.rows as nat, a.cols as nat) =~~= hadamard_grid(b@, a@, a.rows as nat, a.cols as nat));
}

/// Mapping with a function that returns its argument leaves the matrix as it
/// was: `map(M, |x| x) == M`.
pub proof fn lemma_map_identity<F: Fn(i64) -> i64>(m: Matrix, f: F, mapped: Seq<Seq<i64>>)
    requires
        m.wf(),
        forall|x: i64, y: i64| call_ensures(f, (x,), y) ==> y == x,
        maps_to(f, m@, mapped, m.rows as nat, m.cols as nat),
    ensures
        mapped == m@,
{
    assert(mapped =~~= m@);
}

/// Mapping with a function that always returns `v` gives the uniform grid of `v`.
pub proof fn lemma_map_constant<F: Fn(i64) -> i64>(m: Matrix, f: F, v: i64, mapped: Seq<Seq<i64>>)
    requires
        m.wf(),
        forall|x: i64, y: i64| call_ensures(f, (x,), y) ==> y == v,
        maps_to(f, m@, mapped, m.rows as nat, m.cols as nat),
    ensures
        mapped == filled_grid(m.rows as nat, m.cols as nat, v),
{
    assert(mapped =~~= filled_grid(m.rows as nat, m.cols as nat, v));
}

/// Mapping the left operand of an entrywise product through the identity first
/// changes nothing: `map(A, |x| x) ∘ B == A ∘ B`.
pub proof fn lemma_dot_multiply_after_identity_map<F: Fn(i64) -> i64>(
    a: Matrix,
    b: Matrix,
    f: F,
    mapped: Seq<Seq<i64>>,
)
    requires
        a.wf(),
        b.wf(),
        a.rows == b.rows,
        a.cols == b.cols,
        forall|x: i64, y: i64| call_ensures(f, (x,), y) ==> y == x,
        maps_to(f, a@, mapped, a.rows as nat, a.cols as nat),
    ensures
        hadamard_grid(mapped, b@, a.rows as nat, a.cols as nat) == hadamard_grid(a@, b@, a.rows as nat, a.cols as nat),
{
    lemma_map_identity(a, f, mapped);
}

} // verus!
