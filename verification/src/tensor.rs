//! Plain tensors: a shape and the elements in row-major order.

use vstd::prelude::*;
use crate::error::{Error, Fault};
use crate::ieee::ZERO;

verus! {

/// The number of elements of a tensor of the given shape.
pub open spec fn numel(shape: Seq<usize>) -> nat
    decreases shape.len(),
{
    if shape.len() == 0 {
        1
    } else {
        numel(shape.drop_last()) * (shape.last() as nat)
    }
}

/// A shape and as many elements as it asks for.
pub struct TensorSpec {
    pub shape: Seq<usize>,
    pub data: Seq<u32>,
}

/// A tensor of single-precision values, each held as its bit pattern. It
/// has as many elements as its shape asks for.
#[derive(Debug)]
pub struct Tensor {
    shape: Vec<usize>,
    data: Vec<u32>,
}

impl View for Tensor {
    type V = TensorSpec;

    closed spec fn view(&self) -> TensorSpec {
        TensorSpec { shape: self.shape@, data: self.data@ }
    }
}

impl TensorSpec {
    /// Whether there are as many elements as the shape asks for.
    pub open spec fn wf(self) -> bool {
        self.data.len() == numel(self.shape)
    }
}

/// The view of a tensor that may be absent.
pub open spec fn view_if_present(t: Option<Tensor>) -> Option<TensorSpec> {
    match t {
        Some(x) => Some(x@),
        None => None,
    }
}

/// `count` copies of `value`.
pub open spec fn repeated(value: u32, count: nat) -> Seq<u32> {
    Seq::new(count, |i: int| value)
}

/// `values` cut or padded with `fill` to `count` elements.
pub open spec fn fitted(values: Seq<u32>, count: nat, fill: u32) -> Seq<u32> {
    Seq::new(
        count,
        |i: int|
            if i < values.len() {
                values[i]
            } else {
                fill
            },
    )
}

/// What `Tensor::from_data` gives.
pub open spec fn shaped(data: Seq<u32>, shape: Seq<usize>) -> Result<TensorSpec, Fault> {
    if data.len() == numel(shape) {
        Ok(TensorSpec { shape, data })
    } else {
        Err(Fault::Shape)
    }
}

/// What `Tensor::filled` gives.
pub open spec fn constant(shape: Seq<usize>, value: u32) -> Result<TensorSpec, Fault> {
    if numel(shape) <= usize::MAX {
        Ok(TensorSpec { shape, data: repeated(value, numel(shape)) })
    } else {
        Err(Fault::Shape)
    }
}

/// What `Tensor::fit` gives.
pub open spec fn refitted(values: Seq<u32>, shape: Seq<usize>, fill: u32) -> Result<
    TensorSpec,
    Fault,
> {
    if numel(shape) <= usize::MAX {
        Ok(TensorSpec { shape, data: fitted(values, numel(shape), fill) })
    } else {
        Err(Fault::Shape)
    }
}

/// Whether the exec result `r` is what the spec result `expected` describes.
pub open spec fn agrees(r: Result<Tensor, Error>, expected: Result<TensorSpec, Fault>) -> bool {
    match expected {
        Ok(t) => r matches Ok(x) && x@ == t,
        Err(e) => r matches Err(f) && f@ == e,
    }
}

proof fn lemma_numel_zero(shape: Seq<usize>, i: int)
    requires
        0 <= i < shape.len(),
        shape[i] == 0,
    ensures
        numel(shape) == 0,
    decreases shape.len(),
{
    if i < shape.len() - 1 {
        lemma_numel_zero(shape.drop_last(), i);
        assert(numel(shape.drop_last()) * (shape.last() as nat) == 0) by (nonlinear_arith)
            requires
                numel(shape.drop_last()) == 0,
        ;
    } else {
        assert(numel(shape.drop_last()) * (shape.last() as nat) == 0) by (nonlinear_arith)
            requires
                shape.last() == 0,
        ;
    }
}

proof fn lemma_numel_prefix(shape: Seq<usize>, k: int)
    requires
        0 <= k <= shape.len(),
        forall|i: int| 0 <= i < shape.len() ==> shape[i] >= 1,
    ensures
        1 <= numel(shape.take(k)) <= numel(shape),
    decreases shape.len() - k,
{
    if k == shape.len() {
        assert(shape.take(k) == shape);
        lemma_numel_positive(shape);
    } else {
        lemma_numel_prefix(shape, k + 1);
        assert(shape.take(k + 1).drop_last() == shape.take(k));
        let a = numel(shape.take(k));
        let d = shape.take(k + 1).last() as nat;
        assert(d >= 1);
        assert(numel(shape.take(k + 1)) == a * d);
        if k == 0 {
            assert(shape.take(0) == Seq::<usize>::empty());
        } else {
            lemma_numel_positive(shape.take(k));
        }
        assert(a <= a * d) by (nonlinear_arith)
            requires
                d >= 1,
                a >= 0,
        ;
    }
}

proof fn lemma_numel_positive(shape: Seq<usize>)
    requires
        forall|i: int| 0 <= i < shape.len() ==> shape[i] >= 1,
    ensures
        numel(shape) >= 1,
    decreases shape.len(),
{
    if shape.len() > 0 {
        lemma_numel_positive(shape.drop_last());
        assert(numel(shape.drop_last()) * (shape.last() as nat) >= 1) by (nonlinear_arith)
            requires
                numel(shape.drop_last()) >= 1,
                shape.last() >= 1,
        ;
    }
}

/// The number of elements that `shape` asks for, or `None` where that
/// number does not fit in `usize`.
pub fn element_count(shape: &Vec<usize>) -> (count: Option<usize>)
    ensures
        match count {
            Some(n) => n == numel(shape@),
            None => numel(shape@) > usize::MAX,
        },
{
    let mut i: usize = 0;
    while i < shape.len()
        invariant
            i <= shape.len(),
            forall|j: int| 0 <= j < i ==> shape[j] >= 1,
        decreases shape.len() - i,
    {
        if shape[i] == 0 {
            proof {
                lemma_numel_zero(shape@, i as int);
            }
            return Some(0);
        }
        i = i + 1;
    }
    let mut count: usize = 1;
    let mut k: usize = 0;
    while k < shape.len()
        invariant
            k <= shape.len(),
            forall|j: int| 0 <= j < shape.len() ==> shape[j] >= 1,
            count == numel(shape@.take(k as int)),
        decreases shape.len() - k,
    {
        proof {
            assert(shape@.take(k + 1).drop_last() == shape@.take(k as int));
            lemma_numel_prefix(shape@, k + 1);
        }
        match count.checked_mul(shape[k]) {
            Some(next) => {
                count = next;
            },
            None => {
                return None;
            },
        }
        k = k + 1;
    }
    assert(shape@.take(k as int) == shape@);
    Some(count)
}

/// The shape of a vector.
pub fn dims1(a: usize) -> (shape: Vec<usize>)
    ensures
        shape@ == seq![a],
{
    let shape = vec![a];
    assert(shape@ =~= seq![a]);
    shape
}

/// The shape of a matrix.
pub fn dims2(a: usize, b: usize) -> (shape: Vec<usize>)
    ensures
        shape@ == seq![a, b],
{
    let shape = vec![a, b];
    assert(shape@ =~= seq![a, b]);
    shape
}

/// The shape of a tensor of rank three.
pub fn dims3(a: usize, b: usize, c: usize) -> (shape: Vec<usize>)
    ensures
        shape@ == seq![a, b, c],
{
    let shape = vec![a, b, c];
    assert(shape@ =~= seq![a, b, c]);
    shape
}

/// The shape of a tensor of rank four.
pub fn dims4(a: usize, b: usize, c: usize, d: usize) -> (shape: Vec<usize>)
    ensures
        shape@ == seq![a, b, c, d],
{
    let shape = vec![a, b, c, d];
    assert(shape@ =~= seq![a, b, c, d]);
    shape
}

impl Tensor {
    #[verifier::type_invariant]
    spec fn well_formed(&self) -> bool {
        self.data@.len() == numel(self.shape@)
    }

    /// The tensor's shape.
    pub fn shape(&self) -> (shape: &Vec<usize>)
        ensures
            shape@ == self@.shape,
            self@.wf(),
    {
        proof {
            use_type_invariant(self);
        }
        &self.shape
    }

    /// The tensor's elements, in row-major order.
    pub fn data(&self) -> (data: &Vec<u32>)
        ensures
            data@ == self@.data,
            self@.wf(),
    {
        proof {
            use_type_invariant(self);
        }
        &self.data
    }

    /// A tensor of the given elements. Fails with `Error::Shape` exactly when
    /// the shape asks for another number of elements.
    pub fn from_data(data: Vec<u32>, shape: Vec<usize>) -> (r: Result<Tensor, Error>)
        ensures
            agrees(r, shaped(data@, shape@)),
    {
        match element_count(&shape) {
            Some(n) => {
                if n == data.len() {
                    Ok(Tensor { shape, data })
                } else {
                    Err(Error::Shape)
                }
            },
            None => {
                assert(data.len() <= usize::MAX);
                Err(Error::Shape)
            },
        }
    }

    /// A tensor whose elements all are `value`. Fails with `Error::Shape`
    /// exactly when the number of elements does not fit in `usize`.
    pub fn filled(shape: Vec<usize>, value: u32) -> (r: Result<Tensor, Error>)
        ensures
            agrees(r, constant(shape@, value)),
    {
        Tensor::fit(&Vec::new(), shape, value)
    }

    /// A tensor that holds `values`, cut or padded with `fill` to the number
    /// of elements that the shape asks for. Fails with `Error::Shape` exactly
    /// when that number does not fit in `usize`.
    pub fn fit(values: &Vec<u32>, shape: Vec<usize>, fill: u32) -> (r: Result<Tensor, Error>)
        ensures
            agrees(r, refitted(values@, shape@, fill)),
            values.len() == 0 ==> agrees(r, constant(shape@, fill)),
    {
        match element_count(&shape) {
            Some(n) => {
                let mut data: Vec<u32> = Vec::with_capacity(n);
                let mut i: usize = 0;
                while i < n
                    invariant
                        i <= n,
                        data@ == fitted(values@, i as nat, fill),
                    decreases n - i,
                {
                    let value: u32 = if i < values.len() {
                        values[i]
                    } else {
                        fill
                    };
                    data.push(value);
                    i = i + 1;
                    assert(data@ == fitted(values@, i as nat, fill));
                }
                assert(values.len() == 0 ==> fitted(values@, n as nat, fill) == repeated(
                    fill,
                    n as nat,
                ));
                Ok(Tensor { shape, data })
            },
            None => Err(Error::Shape),
        }
    }
}

impl TensorSpec {
    /// Whether the tensor is a matrix.
    pub open spec fn is_matrix(self) -> bool {
        self.shape.len() == 2 && self.wf()
    }

    /// Row `index` of a matrix, and a row of zeros where the matrix has no
    /// such row.
    pub open spec fn row_or_zeros(self, index: int) -> Seq<u32> {
        if 0 <= index < self.shape[0] {
            self.data.subrange(index * self.shape[1], (index + 1) * self.shape[1])
        } else {
            repeated(ZERO, self.shape[1] as nat)
        }
    }

    /// The rows of a matrix at `indices`, one after the other.
    pub open spec fn gathered(self, indices: Seq<usize>) -> Seq<u32>
        decreases indices.len(),
    {
        if indices.len() == 0 {
            Seq::empty()
        } else {
            self.gathered(indices.drop_last()) + self.row_or_zeros(indices.last() as int)
        }
    }
}

proof fn lemma_numel_matrix(shape: Seq<usize>)
    requires
        shape.len() == 2,
    ensures
        numel(shape) == shape[0] * shape[1],
{
    let front = shape.drop_last();
    assert(front.drop_last() == Seq::<usize>::empty());
    assert(numel(front.drop_last()) == 1);
    assert(front.last() == shape[0]);
    assert(numel(front) == numel(front.drop_last()) * (front.last() as nat));
    assert(numel(shape) == numel(front) * (shape[1] as nat));
    assert(1 * (shape[0] as nat) * (shape[1] as nat) == shape[0] * shape[1]) by (nonlinear_arith);
}

proof fn lemma_gathered_len(table: TensorSpec, indices: Seq<usize>)
    requires
        table.is_matrix(),
    ensures
        table.gathered(indices).len() == indices.len() * table.shape[1],
    decreases indices.len(),
{
    lemma_numel_matrix(table.shape);
    if indices.len() > 0 {
        lemma_gathered_len(table, indices.drop_last());
        let index = indices.last() as int;
        let width = table.shape[1] as int;
        if 0 <= index < table.shape[0] {
            assert((index + 1) * width <= table.shape[0] * width) by (nonlinear_arith)
                requires
                    0 <= index < table.shape[0],
                    width >= 0,
            ;
            assert((index + 1) * width - index * width == width) by (nonlinear_arith);
            assert(index * width >= 0) by (nonlinear_arith)
                requires
                    index >= 0,
                    width >= 0,
            ;
        }
        assert((indices.len() - 1) * width + width == indices.len() * width) by (nonlinear_arith);
    } else {
        assert(0 * table.shape[1] == 0) by (nonlinear_arith);
    }
}

impl Tensor {
    /// The rows of a matrix at `indices`, one after the other, as a matrix
    /// of as many rows as there are indices; a row of zeros stands for an
    /// index beyond the last row. A tensor that is no matrix has no rows.
    pub fn gather(&self, indices: &[usize]) -> (r: Result<Tensor, Error>)
        ensures
            self@.wf(),
            match r {
                Ok(rows) => {
                    &&& self@.is_matrix()
                    &&& rows@.shape == seq![indices@.len() as usize, self@.shape[1]]
                    &&& rows@.data == self@.gathered(indices@)
                },
                Err(e) => e == Error::Shape && (!self@.is_matrix() || indices@.len()
                    * self@.shape[1] > usize::MAX),
            },
    {
        proof {
            use_type_invariant(self);
        }
        if self.shape.len() != 2 {
            return Err(Error::Shape);
        }
        let height: usize = self.shape[0];
        let width: usize = self.shape[1];
        if indices.len().checked_mul(width).is_none() {
            return Err(Error::Shape);
        }
        proof {
            lemma_numel_matrix(self.shape@);
        }
        let mut data: Vec<u32> = Vec::new();
        let mut i: usize = 0;
        assert(indices@.take(0) == Seq::<usize>::empty());
        while i < indices.len()
            invariant
                i <= indices.len(),
                self.shape.len() == 2,
                height == self.shape[0],
                width == self.shape[1],
                self.data.len() == height * width,
                data@ == self@.gathered(indices@.take(i as int)),
            decreases indices.len() - i,
        {
            proof {
                assert(indices@.take(i + 1).drop_last() == indices@.take(i as int));
            }
            let ghost before = data@;
            let index: usize = indices[i];
            let ghost row = self@.row_or_zeros(index as int);
            if index < height {
                assert((index + 1) * width <= height * width) by (nonlinear_arith)
                    requires
                        index < height,
                ;
                assert((index + 1) * width == index * width + width) by (nonlinear_arith);
                let start: usize = index * width;
                let mut j: usize = 0;
                while j < width
                    invariant
                        j <= width,
                        start == index * width,
                        start + width <= self.data.len(),
                        row == self.data@.subrange(start as int, start + width),
                        data@ == before + row.take(j as int),
                    decreases width - j,
                {
                    data.push(self.data[start + j]);
                    j = j + 1;
                    assert(data@ =~= before + row.take(j as int));
                }
                assert(row.take(width as int) == row);
            } else {
                let mut j: usize = 0;
                while j < width
                    invariant
                        j <= width,
                        row == repeated(ZERO, width as nat),
                        data@ == before + row.take(j as int),
                    decreases width - j,
                {
                    data.push(ZERO);
                    j = j + 1;
                    assert(data@ =~= before + row.take(j as int));
                }
                assert(row.take(width as int) == row);
            }
            i = i + 1;
        }
        assert(indices@.take(indices.len() as int) == indices@);
        let shape = dims2(indices.len(), width);
        proof {
            lemma_gathered_len(self@, indices@);
            lemma_numel_matrix(shape@);
        }
        Ok(Tensor { shape, data })
    }
}

} // verus!
