//! Data on a rectangular mesh, prepared for plotting.

use vstd::prelude::*;
use vstd::string::*;
use crate::decimal::Decimal;

verus! {

/// A value that writes itself as a field of a data file.
pub trait MyOutput {
    /// What `formatted_output` returns.
    spec fn output(&self) -> Seq<char>;

    fn formatted_output(&self) -> (r: String)
        ensures
            r@ == self.output(),
    ;
}

impl MyOutput for &str {
    open spec fn output(&self) -> Seq<char> {
        self@
    }

    fn formatted_output(&self) -> (r: String) {
        String::from_str(*self)
    }
}

impl MyOutput for Decimal {
    /// A number is written as it is carried.
    open spec fn output(&self) -> Seq<char> {
        self@
    }

    fn formatted_output(&self) -> (r: String) {
        String::from_str(self.as_str())
    }
}

/// The two coordinate lists of the mesh over `x` and `y`, row by row: the
/// first holds `x` once for each item of `y`; the second holds each item of
/// `y` once for each item of `x`. Both have `x.len() * y.len()` items, and the
/// item `k` of the mesh lies at `x[k % x.len()]` and `y[k / x.len()]`.
pub fn meshgrid<T>(x: Vec<T>, y: Vec<T>) -> (r: (Vec<T>, Vec<T>)) where T: Clone
    ensures
        r.0@.len() == x@.len() * y@.len(),
        r.1@.len() == x@.len() * y@.len(),
        forall|k: int|
            0 <= k < r.0@.len() ==> cloned::<T>(x@[k % (x@.len() as int)], #[trigger] r.0@[k]),
        forall|k: int|
            0 <= k < r.1@.len() ==> cloned::<T>(y@[k / (x@.len() as int)], #[trigger] r.1@[k]),
{
    let nx = x.len();
    let ny = y.len();
    let mut xv: Vec<T> = Vec::new();
    let mut yv: Vec<T> = Vec::new();
    let mut i: usize = 0;
    while i < ny
        invariant
            nx == x@.len(),
            ny == y@.len(),
            i <= ny,
            xv@.len() == i * nx,
            yv@.len() == i * nx,
            forall|k: int| 0 <= k < xv@.len() ==> cloned::<T>(x@[k % (nx as int)], #[trigger] xv@[k]),
            forall|k: int| 0 <= k < yv@.len() ==> cloned::<T>(y@[k / (nx as int)], #[trigger] yv@[k]),
        decreases ny - i,
    {
        let mut j: usize = 0;
        while j < nx
            invariant
                nx == x@.len(),
                ny == y@.len(),
                i < ny,
                j <= nx,
                xv@.len() == i * nx + j,
                yv@.len() == i * nx + j,
                forall|k: int|
                    0 <= k < xv@.len() ==> cloned::<T>(x@[k % (nx as int)], #[trigger] xv@[k]),
                forall|k: int|
                    0 <= k < yv@.len() ==> cloned::<T>(y@[k / (nx as int)], #[trigger] yv@[k]),
            decreases nx - j,
        {
            proof {
                let k = i * nx + j;
                assert(k % (nx as int) == j && k / (nx as int) == i) by (nonlinear_arith)
                    requires
                        k == i * nx + j,
                        0 <= j < nx,
                        0 <= i,
                ;
            }
            xv.push(x[j].clone());
            yv.push(y[i].clone());
            j = j + 1;
        }
        assert((i + 1) * nx == i * nx + nx) by (nonlinear_arith);
        i = i + 1;
    }
    assert(ny * nx == nx * ny) by (nonlinear_arith);
    (xv, yv)
}

/// The two coordinate lists of the mesh over `x` and `y`, column by
/// column: the first holds each item of `x` once for each item of `y`; the
/// second holds `y` once for each item of `x`. Both have `x.len() * y.len()`
/// items, and the item `k` of the mesh lies at `x[k / y.len()]` and
/// `y[k % y.len()]`.
pub fn meshgrid_by_columns<T>(x: Vec<T>, y: Vec<T>) -> (r: (Vec<T>, Vec<T>)) where T: Clone
    ensures
        r.0@.len() == x@.len() * y@.len(),
        r.1@.len() == x@.len() * y@.len(),
        forall|k: int|
            0 <= k < r.0@.len() ==> cloned::<T>(x@[k / (y@.len() as int)], #[trigger] r.0@[k]),
        forall|k: int|
            0 <= k < r.1@.len() ==> cloned::<T>(y@[k % (y@.len() as int)], #[trigger] r.1@[k]),
{
    let nx = x.len();
    let ny = y.len();
    let mut xv: Vec<T> = Vec::new();
    let mut yv: Vec<T> = Vec::new();
    let mut i: usize = 0;
    while i < nx
        invariant
            nx == x@.len(),
            ny == y@.len(),
            i <= nx,
            xv@.len() == i * ny,
            yv@.len() == i * ny,
            forall|k: int| 0 <= k < xv@.len() ==> cloned::<T>(x@[k / (ny as int)], #[trigger] xv@[k]),
            forall|k: int| 0 <= k < yv@.len() ==> cloned::<T>(y@[k % (ny as int)], #[trigger] yv@[k]),
        decreases nx - i,
    {
        let mut j: usize = 0;
        while j < ny
            invariant
                nx == x@.len(),
                ny == y@.len(),
                i < nx,
                j <= ny,
                xv@.len() == i * ny + j,
                yv@.len() == i * ny + j,
                forall|k: int|
                    0 <= k < xv@.len() ==> cloned::<T>(x@[k / (ny as int)], #[trigger] xv@[k]),
                forall|k: int|
                    0 <= k < yv@.len() ==> cloned::<T>(y@[k % (ny as int)], #[trigger] yv@[k]),
            decreases ny - j,
        {
            proof {
                let k = i * ny + j;
                assert(k % (ny as int) == j && k / (ny as int) == i) by (nonlinear_arith)
                    requires
                        k == i * ny + j,
                        0 <= j < ny,
                        0 <= i,
                ;
            }
            xv.push(x[i].clone());
            yv.push(y[j].clone());
            j = j + 1;
        }
        assert((i + 1) * ny == i * ny + ny) by (nonlinear_arith);
        i = i + 1;
    }
    (xv, yv)
}

/// Values on a mesh of `num_cols` columns and `num_rows` rows, row by row.
pub struct Cart3dMeshData<T> where T: Copy + MyOutput {
    num_cols: usize,
    num_rows: usize,
    raw_data: Vec<T>,
}

impl<T> Cart3dMeshData<T> where T: Copy + MyOutput {
    /// Whether there is one value for each point of the mesh.
    pub open spec fn well_shaped(&self) -> bool {
        self.num_cols() * self.num_rows() == self.raw_data().len()
    }

    pub fn new(num_cols: usize, num_rows: usize, raw_data: Vec<T>) -> (r: Self)
        ensures
            r.num_cols() == num_cols,
            r.num_rows() == num_rows,
            r.raw_data() == raw_data@,
    {
        Self { num_cols, num_rows, raw_data }
    }

    pub closed spec fn num_cols(&self) -> usize {
        self.num_cols
    }

    pub closed spec fn num_rows(&self) -> usize {
        self.num_rows
    }

    pub closed spec fn raw_data(&self) -> Seq<T> {
        self.raw_data@
    }

    /// The number of columns.
    pub fn cols(&self) -> (r: usize)
        ensures
            r == self.num_cols(),
    {
        self.num_cols
    }

    /// The number of rows.
    pub fn rows(&self) -> (r: usize)
        ensures
            r == self.num_rows(),
    {
        self.num_rows
    }

    /// The values, row by row.
    pub fn data(&self) -> (r: &Vec<T>)
        ensures
            r@ == self.raw_data(),
    {
        &self.raw_data
    }

    /// Decides whether there is one value for each point of the mesh.
    pub fn is_well_shaped(&self) -> (r: bool)
        ensures
            r == self.well_shaped(),
    {
        let count = self.raw_data.len();
        match self.num_cols.checked_mul(self.num_rows) {
            Some(points) => points == count,
            None => false,
        }
    }

    /// The texts of the values, row by row, each as the value writes itself.
    pub fn formatted_values(&self) -> (r: Vec<String>)
        ensures
            r@.len() == self.raw_data().len(),
            forall|i: int| 0 <= i < r@.len() ==> (#[trigger] r@[i])@ == self.raw_data()[i].output(),
    {
        let mut out: Vec<String> = Vec::new();
        let mut i: usize = 0;
        while i < self.raw_data.len()
            invariant
                i <= self.raw_data@.len(),
                out@.len() == i,
                forall|k: int| 0 <= k < i ==> (#[trigger] out@[k])@ == self.raw_data@[k].output(),
            decreases self.raw_data@.len() - i,
        {
            out.push(self.raw_data[i].formatted_output());
            i = i + 1;
        }
        out
    }
}

} // verus!
