use rand::Rng;
use vstd::prelude::*;

verus! {

/// Errors reported by matrix operations.
#[derive(Debug, Clone, Copy, PartialEq, Eq, Structural)]
pub enum MatrixError {
    /// The operands' shapes do not agree.
    ShapeMismatch,
    /// A vector's length disagrees with a declared size.
    DimensionMismatch,
}

/// A dense `rows x cols` grid of `i16` values, stored row by row.
#[derive(Debug, Clone)]
///
/// Every operation asks for, and every constructor gives, `wf()`: `data` holds
/// `rows` rows of `cols` entries each.
pub struct Matrix {
    pub cols: usize,
    pub rows: usize,
    pub data: Vec<Vec<i16>>,
}

/// True when `g` has exactly `rows` rows of exactly `cols` entries each.
pub open spec fn grid_shaped(g: Seq<Seq<i16>>, rows: nat, cols: nat) -> bool {
    &&& g.len() == rows
    &&& forall|i: int| 0 <= i < rows ==> (#[trigger] g[i]).len() == cols
}

/// True when `x` is representable as an `i16`.
pub open spec fn in_i16(x: int) -> bool {
    i16::MIN <= x <= i16::MAX
}

/// The sum of the first `k` terms `a[i][t] * b[t][j]`, computed exactly.
pub open spec fn dot(a: Seq<Seq<i16>>, b: Seq<Seq<i16>>, i: int, j: int, k: int) -> int
    decreases k,
{
    if k <= 0 {
        0
    } else {
        dot(a, b, i, j, k - 1) + a[i][k - 1] * b[k - 1][j]
    }
}

/// Every term and every partial sum of every entry of `a * b` fits in an `i16`,
/// where `a` is `rows x n` and `b` is `n x cols`.
pub open spec fn product_fits(a: Seq<Seq<i16>>, b: Seq<Seq<i16>>, rows: nat, n: nat, cols: nat) -> bool {
    forall|i: int, j: int, k: int|
        0 <= i < rows && 0 <= j < cols && 0 <= k < n ==> {
            &&& in_i16(a[i][k] * b[k][j])
            &&& in_i16(#[trigger] dot(a, b, i, j, k + 1))
        }
}

/// The `rows x cols` product of `a` (`rows x n`) and `b` (`n x cols`).
pub open spec fn product_grid(a: Seq<Seq<i16>>, b: Seq<Seq<i16>>, rows: nat, n: nat, cols: nat) -> Seq<Seq<i16>> {
    Seq::new(rows, |i: int| Seq::new(cols, |j: int| dot(a, b, i, j, n as int) as i16))
}

/// The `cols x rows` transpose of a `rows x cols` grid.
pub open spec fn transpose_grid(g: Seq<Seq<i16>>, rows: nat, cols: nat) -> Seq<Seq<i16>> {
    Seq::new(cols, |i: int| Seq::new(rows, |j: int| g[j][i]))
}

/// The `len x 1` column holding `s` from top to bottom.
pub open spec fn column_of(s: Seq<i16>) -> Seq<Seq<i16>> {
    Seq::new(s.len(), |i: int| seq![s[i]])
}

/// The rows of `g` laid end to end.
pub open spec fn flatten(g: Seq<Seq<i16>>) -> Seq<i16>
    decreases g.len(),
{
    if g.len() == 0 {
        Seq::empty()
    } else {
        flatten(g.drop_last()) + g.last()
    }
}

/// `x + y`, or `x * y` when `multiply` holds, computed exactly.
pub open spec fn apply(x: i16, y: i16, multiply: bool) -> int {
    if multiply {
        x * y
    } else {
        x + y
    }
}

/// Every entry of `a` combined with the entry at the same place in `b`.
pub open spec fn combine_grid(a: Seq<Seq<i16>>, b: Seq<Seq<i16>>, multiply: bool) -> Seq<Seq<i16>> {
    Seq::new(a.len(), |i: int| Seq::new(a[i].len(), |j: int| apply(a[i][j], b[i][j], multiply) as i16))
}

/// Every combination that `combine_grid(a, b, multiply)` makes fits in an `i16`.
pub open spec fn combine_fits(a: Seq<Seq<i16>>, b: Seq<Seq<i16>>, multiply: bool) -> bool {
    forall|i: int, j: int|
        0 <= i < a.len() && 0 <= j < a[i].len() ==> in_i16(#[trigger] apply(a[i][j], b[i][j], multiply))
}

/// Every entry of `a` combined with the scalar `n`.
pub open spec fn scalar_grid(a: Seq<Seq<i16>>, n: i16, multiply: bool) -> Seq<Seq<i16>> {
    Seq::new(a.len(), |i: int| Seq::new(a[i].len(), |j: int| apply(a[i][j], n, multiply) as i16))
}

/// Every combination that `scalar_grid(a, n, multiply)` makes fits in an `i16`.
pub open spec fn scalar_fits(a: Seq<Seq<i16>>, n: i16, multiply: bool) -> bool {
    forall|i: int, j: int|
        0 <= i < a.len() && 0 <= j < a[i].len() ==> in_i16(#[trigger] apply(a[i][j], n, multiply))
}

/// `after` is `before` with every entry replaced by a value that `f` may return for it.
pub open spec fn mapped_by<F: Fn(i16) -> i16>(before: Seq<Seq<i16>>, after: Seq<Seq<i16>>, f: F) -> bool {
    &&& after.len() == before.len()
    &&& forall|i: int| 0 <= i < before.len() ==> (#[trigger] after[i]).len() == before[i].len()
    &&& forall|i: int, j: int|
        0 <= i < before.len() && 0 <= j < before[i].len() ==> f.ensures((before[i][j],), #[trigger] after[i][j])
}

impl View for Matrix {
    type V = Seq<Seq<i16>>;

    open spec fn view(&self) -> Seq<Seq<i16>> {
        self.data@.map_values(|r: Vec<i16>| r@)
    }
}

impl Matrix {
    /// The stored grid has the declared number of rows and columns.
    pub open spec fn wf(&self) -> bool {
        grid_shaped(self@, self.rows as nat, self.cols as nat)
    }

    /// A `rows x cols` matrix of zeros.
    pub fn new(rows: usize, cols: usize) -> (r: Matrix)
        ensures
            r.wf(),
            r.rows == rows,
            r.cols == cols,
            r@ == Seq::new(rows as nat, |i: int| Seq::new(cols as nat, |j: int| 0i16)),
    {
        let mut data: Vec<Vec<i16>> = Vec::new();
        let mut i: usize = 0;
        while i < rows
            invariant
                i <= rows,
                data@.len() == i,
                forall|k: int| 0 <= k < i ==> (#[trigger] data@[k])@ == Seq::new(cols as nat, |j: int| 0i16),
            decreases rows - i,
        {
            let mut row: Vec<i16> = Vec::new();
            let mut j: usize = 0;
            while j < cols
                invariant
                    j <= cols,
                    row@ == Seq::new(j as nat, |x: int| 0i16),
                decreases cols - j,
            {
                row.push(0);
                j = j + 1;
                assert(row@ =~= Seq::new(j as nat, |x: int| 0i16));
            }
            data.push(row);
            i = i + 1;
        }
        let r = Matrix { cols, rows, data };
        assert(r@ =~= Seq::new(rows as nat, |i: int| Seq::new(cols as nat, |j: int| 0i16)));
        r
    }
    /// A new matrix of the same shape whose entry at `(i, j)` is `func(self[i][j], i, j)`.
    pub fn map_with_location<F: Fn(i16, usize, usize) -> i16>(&self, func: F) -> (r: Matrix)
        requires
            self.wf(),
            forall|i: int, j: int|
                0 <= i < self.rows && 0 <= j < self.cols ==> func.requires(
                    (#[trigger] self@[i][j], i as usize, j as usize),
                ),
        ensures
            r.wf(),
            r.rows == self.rows,
            r.cols == self.cols,
            forall|i: int, j: int|
                0 <= i < self.rows && 0 <= j < self.cols ==> func.ensures(
                    (self@[i][j], i as usize, j as usize),
                    #[trigger] r@[i][j],
                ),
    {
        let mut data: Vec<Vec<i16>> = Vec::new();
        let mut i: usize = 0;
        while i < self.rows
            invariant
                self.wf(),
                i <= self.rows,
                data@.len() == i,
                forall|a: int, b: int|
                    0 <= a < self.rows && 0 <= b < self.cols ==> func.requires(
                        (#[trigger] self@[a][b], a as usize, b as usize),
                    ),
                forall|a: int| 0 <= a < i ==> (#[trigger] data@[a])@.len() == self.cols,
                forall|a: int, b: int|
                    0 <= a < i && 0 <= b < self.cols ==> func.ensures(
                        (self@[a][b], a as usize, b as usize),
                        #[trigger] data@[a]@[b],
                    ),
            decreases self.rows - i,
        {
            let mut row: Vec<i16> = Vec::new();
            let mut j: usize = 0;
            assert(self.data@[i as int]@ == self@[i as int]);
            while j < self.cols
                invariant
                    self.wf(),
                    i < self.rows,
                    j <= self.cols,
                    row@.len() == j,
                    self.data@[i as int]@ == self@[i as int],
                    forall|a: int, b: int|
                        0 <= a < self.rows && 0 <= b < self.cols ==> func.requires(
                            (#[trigger] self@[a][b], a as usize, b as usize),
                        ),
                    forall|b: int|
                        0 <= b < j ==> func.ensures(
                            (self@[i as int][b], i, b as usize),
                            #[trigger] row@[b],
                        ),
                decreases self.cols - j,
            {
                let value = self.data[i][j];
                let out = func(value, i, j);
                row.push(out);
                j = j + 1;
            }
            data.push(row);
            i = i + 1;
        }
        let r = Matrix { cols: self.cols, rows: self.rows, data };
        r
    }
    /// The `n x 1` column matrix holding `list` from top to bottom.
    pub fn from_array(list: &[i16]) -> (r: Matrix)
        ensures
            r.wf(),
            r.rows == list@.len(),
            r.cols == 1,
            r@ == column_of(list@),
    {
        let mut data: Vec<Vec<i16>> = Vec::new();
        let mut i: usize = 0;
        while i < list.len()
            invariant
                i <= list@.len(),
                data@.len() == i,
                forall|k: int| 0 <= k < i ==> (#[trigger] data@[k])@ == seq![list@[k]],
            decreases list@.len() - i,
        {
            let mut row: Vec<i16> = Vec::new();
            row.push(list[i]);
            assert(row@ =~= seq![list@[i as int]]);
            data.push(row);
            i = i + 1;
        }
        let r = Matrix { cols: 1, rows: list.len(), data };
        assert(r@ =~= column_of(list@));
        r
    }

    /// The transpose: a `cols x rows` matrix with `r[i][j] == m[j][i]`.
    pub fn transpose(m: &Self) -> (r: Matrix)
        requires
            m.wf(),
        ensures
            r.wf(),
            r.rows == m.cols,
            r.cols == m.rows,
            r@ == transpose_grid(m@, m.rows as nat, m.cols as nat),
    {
        let mut data: Vec<Vec<i16>> = Vec::new();
        let mut i: usize = 0;
        while i < m.cols
            invariant
                m.wf(),
                i <= m.cols,
                data@.len() == i,
                forall|k: int| 0 <= k < i ==> (#[trigger] data@[k])@ == transpose_grid(m@, m.rows as nat, m.cols as nat)[k],
            decreases m.cols - i,
        {
            let mut row: Vec<i16> = Vec::new();
            let mut j: usize = 0;
            while j < m.rows
                invariant
                    m.wf(),
                    i < m.cols,
                    j <= m.rows,
                    row@ == transpose_grid(m@, m.rows as nat, m.cols as nat)[i as int].take(j as int),
                decreases m.rows - j,
            {
                assert(m.data@[j as int]@ == m@[j as int]);
                row.push(m.data[j][i]);
                j = j + 1;
                assert(row@ =~= transpose_grid(m@, m.rows as nat, m.cols as nat)[i as int].take(j as int));
            }
            assert(row@ =~= transpose_grid(m@, m.rows as nat, m.cols as nat)[i as int]);
            data.push(row);
            i = i + 1;
        }
        let r = Matrix { cols: m.rows, rows: m.cols, data };
        assert(r@ =~= transpose_grid(m@, m.rows as nat, m.cols as nat));
        r
    }

    /// The entry `(i, j)` of `a * b`.
    fn dot_entry(a: &Matrix, b: &Matrix, i: usize, j: usize) -> (v: i16)
        requires
            a.wf(),
            b.wf(),
            a.cols == b.rows,
            i < a.rows,
            j < b.cols,
            product_fits(a@, b@, a.rows as nat, a.cols as nat, b.cols as nat),
        ensures
            v == dot(a@, b@, i as int, j as int, a.cols as int),
    {
        let mut sum: i16 = 0;
        let mut k: usize = 0;
        assert(a.data@[i as int]@ == a@[i as int]);
        while k < a.cols
            invariant
                a.wf(),
                b.wf(),
                a.cols == b.rows,
                i < a.rows,
                j < b.cols,
                k <= a.cols,
                product_fits(a@, b@, a.rows as nat, a.cols as nat, b.cols as nat),
                a.data@[i as int]@ == a@[i as int],
                sum == dot(a@, b@, i as int, j as int, k as int),
            decreases a.cols - k,
        {
            assert(b.data@[k as int]@ == b@[k as int]);
            assert(in_i16(dot(a@, b@, i as int, j as int, k + 1)));
            assert(in_i16(a@[i as int][k as int] * b@[k as int][j as int]));
            let term = a.data[i][k] * b.data[k][j];
            sum = sum + term;
            k = k + 1;
        }
        sum
    }

    /// The matrix product `a * b`: an `a.rows x b.cols` matrix whose entry
    /// `(i, j)` is the sum over `k` of `a[i][k] * b[k][j]`.
    pub fn product(a: &Self, b: &Self) -> (r: Result<Matrix, MatrixError>)
        requires
            a.wf(),
            b.wf(),
            a.cols == b.rows ==> product_fits(a@, b@, a.rows as nat, a.cols as nat, b.cols as nat),
        ensures
            r is Err <==> a.cols != b.rows,
            r is Err ==> r == Err::<Matrix, MatrixError>(MatrixError::ShapeMismatch),
            r matches Ok(p) ==> {
                &&& p.wf()
                &&& p.rows == a.rows
                &&& p.cols == b.cols
                &&& p@ == product_grid(a@, b@, a.rows as nat, a.cols as nat, b.cols as nat)
            },
    {
        if a.cols != b.rows {
            return Err(MatrixError::ShapeMismatch);
        }
        let ghost target = product_grid(a@, b@, a.rows as nat, a.cols as nat, b.cols as nat);
        let mut data: Vec<Vec<i16>> = Vec::new();
        let mut i: usize = 0;
        while i < a.rows
            invariant
                a.wf(),
                b.wf(),
                a.cols == b.rows,
                product_fits(a@, b@, a.rows as nat, a.cols as nat, b.cols as nat),
                target == product_grid(a@, b@, a.rows as nat, a.cols as nat, b.cols as nat),
                i <= a.rows,
                data@.len() == i,
                forall|k: int| 0 <= k < i ==> (#[trigger] data@[k])@ == target[k],
            decreases a.rows - i,
        {
            let mut row: Vec<i16> = Vec::new();
            let mut j: usize = 0;
            while j < b.cols
                invariant
                    a.wf(),
                    b.wf(),
                    a.cols == b.rows,
                    product_fits(a@, b@, a.rows as nat, a.cols as nat, b.cols as nat),
                    target == product_grid(a@, b@, a.rows as nat, a.cols as nat, b.cols as nat),
                    i < a.rows,
                    j <= b.cols,
                    row@ == target[i as int].take(j as int),
                decreases b.cols - j,
            {
                let v = Matrix::dot_entry(a, b, i, j);
                row.push(v);
                j = j + 1;
                assert(row@ =~= target[i as int].take(j as int));
            }
            assert(row@ =~= target[i as int]);
            data.push(row);
            i = i + 1;
        }
        let p = Matrix { cols: b.cols, rows: a.rows, data };
        assert(p@ =~= target);
        Ok(p)
    }
    /// An independent matrix with the same shape and entries.
    pub fn copy(&self) -> (r: Matrix)
        requires
            self.wf(),
        ensures
            r.wf(),
            r.rows == self.rows,
            r.cols == self.cols,
            r@ == self@,
    {
        let mut data: Vec<Vec<i16>> = Vec::new();
        let mut i: usize = 0;
        while i < self.rows
            invariant
                self.wf(),
                i <= self.rows,
                data@.len() == i,
                forall|k: int| 0 <= k < i ==> (#[trigger] data@[k])@ == self@[k],
            decreases self.rows - i,
        {
            let mut row: Vec<i16> = Vec::new();
            let mut j: usize = 0;
            assert(self.data@[i as int]@ == self@[i as int]);
            while j < self.cols
                invariant
                    self.wf(),
                    i < self.rows,
                    j <= self.cols,
                    self.data@[i as int]@ == self@[i as int],
                    row@ == self@[i as int].take(j as int),
                decreases self.cols - j,
            {
                row.push(self.data[i][j]);
                j = j + 1;
                assert(row@ =~= self@[i as int].take(j as int));
            }
            assert(row@ =~= self@[i as int]);
            data.push(row);
            i = i + 1;
        }
        let r = Matrix { cols: self.cols, rows: self.rows, data };
        assert(r@ =~= self@);
        r
    }

    /// The entries read row by row, left to right.
    pub fn to_array(&self) -> (r: Vec<i16>)
        requires
            self.wf(),
        ensures
            r@ == flatten(self@),
    {
        let mut out: Vec<i16> = Vec::new();
        let mut i: usize = 0;
        while i < self.rows
            invariant
                self.wf(),
                i <= self.rows,
                out@ == flatten(self@.take(i as int)),
            decreases self.rows - i,
        {
            let mut j: usize = 0;
            assert(self.data@[i as int]@ == self@[i as int]);
            while j < self.cols
                invariant
                    self.wf(),
                    i < self.rows,
                    j <= self.cols,
                    self.data@[i as int]@ == self@[i as int],
                    out@ == flatten(self@.take(i as int)) + self@[i as int].take(j as int),
                decreases self.cols - j,
            {
                out.push(self.data[i][j]);
                j = j + 1;
                assert(out@ =~= flatten(self@.take(i as int)) + self@[i as int].take(j as int));
            }
            assert(self@.take(i + 1).drop_last() =~= self@.take(i as int));
            assert(self@[i as int].take(j as int) =~= self@[i as int]);
            i = i + 1;
        }
        assert(self@.take(self.rows as int) =~= self@);
        out
    }

    /// Replaces every entry `x` by `func(x)`, in place.
    pub fn map<F: Fn(i16) -> i16>(&mut self, func: F)
        requires
            old(self).wf(),
            forall|i: int, j: int|
                0 <= i < old(self).rows && 0 <= j < old(self).cols ==> func.requires(
                    (#[trigger] old(self)@[i][j],),
                ),
        ensures
            final(self).wf(),
            final(self).rows == old(self).rows,
            final(self).cols == old(self).cols,
            mapped_by(old(self)@, final(self)@, func),
    {
        let mut data: Vec<Vec<i16>> = Vec::new();
        let mut i: usize = 0;
        while i < self.rows
            invariant
                self.wf(),
                i <= self.rows,
                data@.len() == i,
                forall|a: int, b: int|
                    0 <= a < self.rows && 0 <= b < self.cols ==> func.requires((#[trigger] self@[a][b],)),
                forall|a: int| 0 <= a < i ==> (#[trigger] data@[a])@.len() == self.cols,
                forall|a: int, b: int|
                    0 <= a < i && 0 <= b < self.cols ==> func.ensures((self@[a][b],), #[trigger] data@[a]@[b]),
            decreases self.rows - i,
        {
            let mut row: Vec<i16> = Vec::new();
            let mut j: usize = 0;
            assert(self.data@[i as int]@ == self@[i as int]);
            while j < self.cols
                invariant
                    self.wf(),
                    i < self.rows,
                    j <= self.cols,
                    row@.len() == j,
                    self.data@[i as int]@ == self@[i as int],
                    forall|a: int, b: int|
                        0 <= a < self.rows && 0 <= b < self.cols ==> func.requires((#[trigger] self@[a][b],)),
                    forall|b: int| 0 <= b < j ==> func.ensures((self@[i as int][b],), #[trigger] row@[b]),
                decreases self.cols - j,
            {
                let out = func(self.data[i][j]);
                row.push(out);
                j = j + 1;
            }
            data.push(row);
            i = i + 1;
        }
        self.data = data;
    }

    /// Consumes `m` and returns a matrix of its shape whose entry at `(i, j)`
    /// is `func(m[i][j], i, j)`.
    pub fn static_map<F: Fn(i16, usize, usize) -> i16>(m: Self, func: F) -> (r: Matrix)
        requires
            m.wf(),
            forall|i: int, j: int|
                0 <= i < m.rows && 0 <= j < m.cols ==> func.requires(
                    (#[trigger] m@[i][j], i as usize, j as usize),
                ),
        ensures
            r.wf(),
            r.rows == m.rows,
            r.cols == m.cols,
            forall|i: int, j: int|
                0 <= i < m.rows && 0 <= j < m.cols ==> func.ensures(
                    (m@[i][j], i as usize, j as usize),
                    #[trigger] r@[i][j],
                ),
    {
        m.map_with_location(func)
    }
    /// True when `other` has the same number of rows and columns.
    pub open spec fn same_shape(&self, other: &Matrix) -> bool {
        self.rows == other.rows && self.cols == other.cols
    }

    /// Each entry combined with the entry at the same place in `other`.
    fn entrywise(&self, other: &Matrix, multiply: bool) -> (r: Matrix)
        requires
            self.wf(),
            other.wf(),
            self.same_shape(other),
            combine_fits(self@, other@, multiply),
        ensures
            r.wf(),
            r.same_shape(self),
            r@ == combine_grid(self@, other@, multiply),
    {
        let ghost target = combine_grid(self@, other@, multiply);
        let mut data: Vec<Vec<i16>> = Vec::new();
        let mut i: usize = 0;
        while i < self.rows
            invariant
                self.wf(),
                other.wf(),
                self.same_shape(other),
                combine_fits(self@, other@, multiply),
                target == combine_grid(self@, other@, multiply),
                i <= self.rows,
                data@.len() == i,
                forall|k: int| 0 <= k < i ==> (#[trigger] data@[k])@ == target[k],
            decreases self.rows - i,
        {
            let mut row: Vec<i16> = Vec::new();
            let mut j: usize = 0;
            assert(self.data@[i as int]@ == self@[i as int]);
            assert(other.data@[i as int]@ == other@[i as int]);
            while j < self.cols
                invariant
                    self.wf(),
                    other.wf(),
                    self.same_shape(other),
                    combine_fits(self@, other@, multiply),
                    target == combine_grid(self@, other@, multiply),
                    i < self.rows,
                    j <= self.cols,
                    self.data@[i as int]@ == self@[i as int],
                    other.data@[i as int]@ == other@[i as int],
                    row@ == target[i as int].take(j as int),
                decreases self.cols - j,
            {
                let x = self.data[i][j];
                let y = other.data[i][j];
                assert(in_i16(apply(x, y, multiply)));
                let v: i16 = if multiply { x * y } else { x + y };
                row.push(v);
                j = j + 1;
                assert(row@ =~= target[i as int].take(j as int));
            }
            assert(row@ =~= target[i as int]);
            data.push(row);
            i = i + 1;
        }
        let r = Matrix { cols: self.cols, rows: self.rows, data };
        assert(r@ =~= target);
        r
    }

    /// Each entry combined with the scalar `n`.
    fn with_scalar(&self, n: i16, multiply: bool) -> (r: Matrix)
        requires
            self.wf(),
            scalar_fits(self@, n, multiply),
        ensures
            r.wf(),
            r.same_shape(self),
            r@ == scalar_grid(self@, n, multiply),
    {
        let ghost target = scalar_grid(self@, n, multiply);
        let mut data: Vec<Vec<i16>> = Vec::new();
        let mut i: usize = 0;
        while i < self.rows
            invariant
                self.wf(),
                scalar_fits(self@, n, multiply),
                target == scalar_grid(self@, n, multiply),
                i <= self.rows,
                data@.len() == i,
                forall|k: int| 0 <= k < i ==> (#[trigger] data@[k])@ == target[k],
            decreases self.rows - i,
        {
            let mut row: Vec<i16> = Vec::new();
            let mut j: usize = 0;
            assert(self.data@[i as int]@ == self@[i as int]);
            while j < self.cols
                invariant
                    self.wf(),
                    scalar_fits(self@, n, multiply),
                    target == scalar_grid(self@, n, multiply),
                    i < self.rows,
                    j <= self.cols,
                    self.data@[i as int]@ == self@[i as int],
                    row@ == target[i as int].take(j as int),
                decreases self.cols - j,
            {
                let x = self.data[i][j];
                assert(in_i16(apply(x, n, multiply)));
                let v: i16 = if multiply { x * n } else { x + n };
                row.push(v);
                j = j + 1;
                assert(row@ =~= target[i as int].take(j as int));
            }
            assert(row@ =~= target[i as int]);
            data.push(row);
            i = i + 1;
        }
        let r = Matrix { cols: self.cols, rows: self.rows, data };
        assert(r@ =~= target);
        r
    }

    /// A new matrix with `n` added to every entry.
    pub fn add_scalar(&self, n: i16) -> (r: Matrix)
        requires
            self.wf(),
            scalar_fits(self@, n, false),
        ensures
            r.wf(),
            r.same_shape(self),
            r@ == scalar_grid(self@, n, false),
    {
        self.with_scalar(n, false)
    }

    /// A new matrix with every entry multiplied by `n`.
    pub fn scale(&self, n: i16) -> (r: Matrix)
        requires
            self.wf(),
            scalar_fits(self@, n, true),
        ensures
            r.wf(),
            r.same_shape(self),
            r@ == scalar_grid(self@, n, true),
    {
        self.with_scalar(n, true)
    }

    /// The entrywise sum with `other`; fails unless the shapes agree.
    pub fn add_elementwise(&self, other: &Matrix) -> (r: Result<Matrix, MatrixError>)
        requires
            self.wf(),
            other.wf(),
            self.same_shape(other) ==> combine_fits(self@, other@, false),
        ensures
            r is Err <==> !self.same_shape(other),
            r is Err ==> r == Err::<Matrix, MatrixError>(MatrixError::ShapeMismatch),
            r matches Ok(m) ==> m.wf() && m.same_shape(self) && m@ == combine_grid(self@, other@, false),
    {
        if self.rows != other.rows || self.cols != other.cols {
            return Err(MatrixError::ShapeMismatch);
        }
        Ok(self.entrywise(other, false))
    }

    /// The entrywise (Hadamard) product with `other`; fails unless the shapes agree.
    pub fn hadamard(&self, other: &Matrix) -> (r: Result<Matrix, MatrixError>)
        requires
            self.wf(),
            other.wf(),
            self.same_shape(other) ==> combine_fits(self@, other@, true),
        ensures
            r is Err <==> !self.same_shape(other),
            r is Err ==> r == Err::<Matrix, MatrixError>(MatrixError::ShapeMismatch),
            r matches Ok(m) ==> m.wf() && m.same_shape(self) && m@ == combine_grid(self@, other@, true),
    {
        if self.rows != other.rows || self.cols != other.cols {
            return Err(MatrixError::ShapeMismatch);
        }
        Ok(self.entrywise(other, true))
    }

    /// Overwrites every entry with a random value in `[-10, 10)`.
    pub fn randomize(&mut self)
        requires
            old(self).wf(),
        ensures
            final(self).wf(),
            final(self).same_shape(old(self)),
            forall|i: int, j: int|
                0 <= i < final(self).rows && 0 <= j < final(self).cols ==> -10 <= #[trigger] final(self)@[i][j] < 10,
    {
        let mut data: Vec<Vec<i16>> = Vec::new();
        let mut i: usize = 0;
        while i < self.rows
            invariant
                i <= self.rows,
                data@.len() == i,
                forall|k: int| 0 <= k < i ==> (#[trigger] data@[k])@.len() == self.cols,
                forall|a: int, b: int|
                    0 <= a < i && 0 <= b < self.cols ==> -10 <= #[trigger] data@[a]@[b] < 10,
            decreases self.rows - i,
        {
            let mut row: Vec<i16> = Vec::new();
            let mut j: usize = 0;
            while j < self.cols
                invariant
                    j <= self.cols,
                    row@.len() == j,
                    forall|b: int| 0 <= b < j ==> -10 <= #[trigger] row@[b] < 10,
                decreases self.cols - j,
            {
                row.push(random_in(-10, 10));
                j = j + 1;
            }
            data.push(row);
            i = i + 1;
        }
        self.data = data;
    }
}

/// Relies on rand's `Rng::gen_range` on the thread-local generator: a value in
/// `[low, high)`; it panics when `low >= high`, which `requires` rules out.
#[verifier::external_body]
fn random_in(low: i16, high: i16) -> (r: i16)
    requires
        low < high,
    ensures
        low <= r < high,
{
    rand::thread_rng().gen_range(low, high)
}

/// Arithmetic applied in place to a matrix with an operand of type `T`.
pub trait MatrixOperation<T>: Sized {
    /// The inputs on which `add` is defined and stays in range.
    spec fn add_allowed(&self, t: T) -> bool;

    /// The inputs on which `multiply` is defined and stays in range.
    spec fn multiply_allowed(&self, t: T) -> bool;

    /// Adds `t` to the receiver.
    fn add(&mut self, t: T) -> (r: Result<(), MatrixError>)
        requires
            old(self).add_allowed(t),
    ;

    /// Multiplies the receiver by `t`.
    fn multiply(&mut self, t: T) -> (r: Result<(), MatrixError>)
        requires
            old(self).multiply_allowed(t),
    ;
}

impl MatrixOperation<i16> for Matrix {
    open spec fn add_allowed(&self, n: i16) -> bool {
        self.wf() && scalar_fits(self@, n, false)
    }

    open spec fn multiply_allowed(&self, n: i16) -> bool {
        self.wf() && scalar_fits(self@, n, true)
    }

    /// Adds `n` to every entry; never fails.
    fn add(&mut self, n: i16) -> (r: Result<(), MatrixError>)
        ensures
            r is Ok,
            final(self).wf(),
            final(self).same_shape(old(self)),
            final(self)@ == scalar_grid(old(self)@, n, false),
    {
        *self = self.add_scalar(n);
        Ok(())
    }

    /// Multiplies every entry by `n`; never fails.
    fn multiply(&mut self, n: i16) -> (r: Result<(), MatrixError>)
        ensures
            r is Ok,
            final(self).wf(),
            final(self).same_shape(old(self)),
            final(self)@ == scalar_grid(old(self)@, n, true),
    {
        *self = self.scale(n);
        Ok(())
    }
}

impl MatrixOperation<Matrix> for Matrix {
    open spec fn add_allowed(&self, m: Matrix) -> bool {
        self.wf() && m.wf() && (self.same_shape(&m) ==> combine_fits(self@, m@, false))
    }

    open spec fn multiply_allowed(&self, m: Matrix) -> bool {
        self.wf() && m.wf() && (self.same_shape(&m) ==> combine_fits(self@, m@, true))
    }

    /// Entrywise sum; on a shape mismatch fails and leaves the receiver as it was.
    fn add(&mut self, m: Matrix) -> (r: Result<(), MatrixError>)
        ensures
            r is Err <==> !old(self).same_shape(&m),
            r is Err ==> r == Err::<(), MatrixError>(MatrixError::ShapeMismatch) && *final(self) == *old(self),
            r is Ok ==> final(self).wf() && final(self).same_shape(old(self)) && final(self)@ == combine_grid(
                old(self)@,
                m@,
                false,
            ),
    {
        match self.add_elementwise(&m) {
            Ok(sum) => {
                *self = sum;
                Ok(())
            },
            Err(e) => Err(e),
        }
    }

    /// Entrywise (Hadamard) product; on a shape mismatch fails and leaves the
    /// receiver as it was.
    fn multiply(&mut self, m: Matrix) -> (r: Result<(), MatrixError>)
        ensures
            r is Err <==> !old(self).same_shape(&m),
            r is Err ==> r == Err::<(), MatrixError>(MatrixError::ShapeMismatch) && *final(self) == *old(self),
            r is Ok ==> final(self).wf() && final(self).same_shape(old(self)) && final(self)@ == combine_grid(
                old(self)@,
                m@,
                true,
            ),
    {
        match self.hadamard(&m) {
            Ok(prod) => {
                *self = prod;
                Ok(())
            },
            Err(e) => Err(e),
        }
    }
}

} // verus!
