use vstd::prelude::*;
use crate::matrix::{column_of, dot, flatten, grid_shaped, in_i16, mapped_by, product_fits, product_grid, transpose_grid, Matrix};

verus! {

/// `f(0) + f(1) + ... + f(n - 1)`.
pub open spec fn sum_to(f: spec_fn(int) -> int, n: int) -> int
    decreases n,
{
    if n <= 0 {
        0
    } else {
        sum_to(f, n - 1) + f(n - 1)
    }
}

proof fn lemma_sum_ext(f: spec_fn(int) -> int, g: spec_fn(int) -> int, n: int)
    requires
        forall|t: int| 0 <= t < n ==> #[trigger] f(t) == g(t),
    ensures
        sum_to(f, n) == sum_to(g, n),
    decreases n,
{
    if n > 0 {
        lemma_sum_ext(f, g, n - 1);
    }
}

proof fn lemma_sum_add(f: spec_fn(int) -> int, g: spec_fn(int) -> int, h: spec_fn(int) -> int, n: int)
    requires
        forall|t: int| 0 <= t < n ==> #[trigger] h(t) == f(t) + g(t),
    ensures
        sum_to(h, n) == sum_to(f, n) + sum_to(g, n),
    decreases n,
{
    if n > 0 {
        lemma_sum_add(f, g, h, n - 1);
    }
}

proof fn lemma_sum_scale(f: spec_fn(int) -> int, x: int, h: spec_fn(int) -> int, n: int)
    requires
        forall|t: int| 0 <= t < n ==> #[trigger] h(t) == f(t) * x,
    ensures
        sum_to(h, n) == sum_to(f, n) * x,
    decreases n,
{
    if n > 0 {
        lemma_sum_scale(f, x, h, n - 1);
        let s = sum_to(f, n - 1);
        let y = f(n - 1);
        assert((s + y) * x == s * x + y * x) by (nonlinear_arith);
    }
}

/// Swapping the order of a finite double sum over `[0, n) x [0, p)`.
proof fn lemma_sum_swap(g: spec_fn(int, int) -> int, n: int, p: int)
    requires
        0 <= n,
        0 <= p,
    ensures
        sum_to(|k: int| sum_to(|l: int| g(l, k), n), p) == sum_to(|l: int| sum_to(|k: int| g(l, k), p), n),
    decreases p,
{
    let rows = |l: int| sum_to(|k: int| g(l, k), p);
    if p == 0 {
        lemma_sum_ext(rows, |l: int| 0, n);
        lemma_sum_scale(|l: int| 0, 0, |l: int| 0, n);
    } else {
        lemma_sum_swap(g, n, p - 1);
        let shorter = |l: int| sum_to(|k: int| g(l, k), p - 1);
        let last = |l: int| g(l, p - 1);
        lemma_sum_add(shorter, last, rows, n);
    }
}

proof fn lemma_dot_is_sum(a: Seq<Seq<i16>>, b: Seq<Seq<i16>>, i: int, j: int, k: int)
    ensures
        dot(a, b, i, j, k) == sum_to(|t: int| a[i][t] * b[t][j], k),
    decreases k,
{
    if k > 0 {
        lemma_dot_is_sum(a, b, i, j, k - 1);
    }
}

/// Under `product_fits`, each entry of `product_grid` is the exact dot product.
proof fn lemma_product_entry(a: Seq<Seq<i16>>, b: Seq<Seq<i16>>, rows: nat, n: nat, cols: nat, i: int, j: int)
    requires
        product_fits(a, b, rows, n, cols),
        0 <= i < rows,
        0 <= j < cols,
    ensures
        product_grid(a, b, rows, n, cols)[i][j] == dot(a, b, i, j, n as int),
{
    if n > 0 {
        assert(in_i16(dot(a, b, i, j, (n - 1) + 1)));
    }
}

/// Transposing a matrix twice gives back the matrix.
pub proof fn transpose_twice_is_identity(m: Matrix)
    requires
        m.wf(),
    ensures
        transpose_grid(transpose_grid(m@, m.rows as nat, m.cols as nat), m.cols as nat, m.rows as nat) == m@,
{
    let once = transpose_grid(m@, m.rows as nat, m.cols as nat);
    let twice = transpose_grid(once, m.cols as nat, m.rows as nat);
    assert forall|i: int| 0 <= i < m.rows implies #[trigger] twice[i] == m@[i] by {
        assert(twice[i] =~= m@[i]);
    }
    assert(twice =~= m@);
}

/// Matrix multiplication is associative: for `a` (`m x n`), `b` (`n x p`) and
/// `c` (`p x q`), `(a * b) * c == a * (b * c)`, whenever every product involved
/// stays within the entry type.
pub proof fn product_is_associative(
    a: Seq<Seq<i16>>,
    b: Seq<Seq<i16>>,
    c: Seq<Seq<i16>>,
    m: nat,
    n: nat,
    p: nat,
    q: nat,
)
    requires
        grid_shaped(a, m, n),
        grid_shaped(b, n, p),
        grid_shaped(c, p, q),
        product_fits(a, b, m, n, p),
        product_fits(b, c, n, p, q),
        product_fits(product_grid(a, b, m, n, p), c, m, p, q),
        product_fits(a, product_grid(b, c, n, p, q), m, n, q),
    ensures
        product_grid(product_grid(a, b, m, n, p), c, m, p, q) == product_grid(a, product_grid(b, c, n, p, q), m, n, q),
{
    let ab = product_grid(a, b, m, n, p);
    let bc = product_grid(b, c, n, p, q);
    let left = product_grid(ab, c, m, p, q);
    let right = product_grid(a, bc, m, n, q);
    assert forall|i: int, j: int| 0 <= i < m && 0 <= j < q implies #[trigger] left[i][j] == right[i][j] by {
        lemma_product_entry(ab, c, m, p, q, i, j);
        lemma_product_entry(a, bc, m, n, q, i, j);
        let g = |l: int, k: int| a[i][l] * b[l][k] * c[k][j];
        // Left side: the sum over k of (sum over l of a[i][l] * b[l][k]) * c[k][j].
        lemma_dot_is_sum(ab, c, i, j, p as int);
        let inner_l = |k: int| sum_to(|l: int| a[i][l] * b[l][k], n as int);
        assert forall|k: int| 0 <= k < p implies ab[i][k] * c[k][j] == inner_l(k) * c[k][j] by {
            lemma_product_entry(a, b, m, n, p, i, k);
            lemma_dot_is_sum(a, b, i, k, n as int);
        }
        lemma_sum_ext(|k: int| ab[i][k] * c[k][j], |k: int| inner_l(k) * c[k][j], p as int);
        assert forall|k: int| 0 <= k < p implies inner_l(k) * c[k][j] == sum_to(|l: int| g(l, k), n as int) by {
            lemma_sum_scale(|l: int| a[i][l] * b[l][k], c[k][j] as int, |l: int| g(l, k), n as int);
        }
        lemma_sum_ext(|k: int| inner_l(k) * c[k][j], |k: int| sum_to(|l: int| g(l, k), n as int), p as int);
        lemma_sum_swap(g, n as int, p as int);
        // Right side: the sum over l of a[i][l] * (sum over k of b[l][k] * c[k][j]).
        lemma_dot_is_sum(a, bc, i, j, n as int);
        assert forall|l: int| 0 <= l < n implies a[i][l] * bc[l][j] == sum_to(|k: int| g(l, k), p as int) by {
            lemma_product_entry(b, c, n, p, q, l, j);
            lemma_dot_is_sum(b, c, l, j, p as int);
            let x = a[i][l] as int;
            assert forall|k: int| 0 <= k < p implies #[trigger] g(l, k) == b[l][k] * c[k][j] * x by {
                let y = b[l][k] as int;
                let z = c[k][j] as int;
                assert(x * y * z == y * z * x) by (nonlinear_arith);
            }
            lemma_sum_scale(|k: int| b[l][k] * c[k][j], x, |k: int| g(l, k), p as int);
            let s = sum_to(|k: int| b[l][k] * c[k][j], p as int);
            assert(x * s == s * x) by (nonlinear_arith);
        }
        lemma_sum_ext(|l: int| a[i][l] * bc[l][j], |l: int| sum_to(|k: int| g(l, k), p as int), n as int);
    }
    assert forall|i: int| 0 <= i < m implies #[trigger] left[i] == right[i] by {
        assert(left[i] =~= right[i]);
    }
    assert(left =~= right);
}

/// Mapping a matrix with a function that returns its argument leaves every
/// entry as it was: `after` is what `Matrix::map(f)` may produce from `before`.
pub proof fn map_identity_keeps_entries<F: Fn(i16) -> i16>(before: Seq<Seq<i16>>, after: Seq<Seq<i16>>, f: F)
    requires
        forall|x: i16, y: i16| #[trigger] f.ensures((x,), y) ==> y == x,
        mapped_by(before, after, f),
    ensures
        after == before,
{
    assert forall|i: int| 0 <= i < before.len() implies #[trigger] after[i] == before[i] by {
        assert forall|j: int| 0 <= j < before[i].len() implies after[i][j] == before[i][j] by {
            assert(f.ensures((before[i][j],), after[i][j]));
        }
        assert(after[i] =~= before[i]);
    }
    assert(after =~= before);
}

/// Reading a column matrix built from a list gives back the list:
/// `to_array` undoes `from_array`.
pub proof fn column_flattens_to_list(s: Seq<i16>)
    ensures
        flatten(column_of(s)) == s,
    decreases s.len(),
{
    if s.len() > 0 {
        let init = s.drop_last();
        column_flattens_to_list(init);
        assert(column_of(s).drop_last() =~= column_of(init));
        assert(s =~= init + seq![s.last()]);
    }
}

} // verus!
