//! Dense row-major tensors: an owned buffer with a shape, and read-only
//! windows into such a buffer.

use crate::shape::{copy_shape, element_count, shape_size};
use vstd::prelude::*;
use vstd::slice::slice_subrange;

verus! {

/// An owned tensor: a shape and a contiguous row-major buffer with one
/// element for each position that the shape describes.
pub struct Tensor<T> {
    data: Vec<T>,
    shape: Vec<usize>,
}

/// A read-only window into the buffer of a tensor, with a shape of its own.
/// It borrows the buffer, so the owner cannot be written to while the window
/// is alive.
pub struct TensorSlice<'a, T> {
    data: &'a [T],
    shape: Vec<usize>,
}

impl<T> View for Tensor<T> {
    type V = Seq<T>;

    /// The elements in row-major order.
    closed spec fn view(&self) -> Seq<T> {
        self.data@
    }
}

impl<'a, T> View for TensorSlice<'a, T> {
    type V = Seq<T>;

    /// The elements in row-major order.
    closed spec fn view(&self) -> Seq<T> {
        self.data@
    }
}

/// A vector that holds `value` at each of its `n` positions.
pub fn repeated<T: Copy>(value: T, n: usize) -> (r: Vec<T>)
    ensures
        r@ == Seq::new(n as nat, |i: int| value),
{
    let mut out: Vec<T> = Vec::new();
    let mut i: usize = 0;
    while i < n
        invariant
            i <= n,
            out@ == Seq::new(i as nat, |k: int| value),
        decreases n - i,
    {
        out.push(value);
        i += 1;
        assert(out@ =~= Seq::new(i as nat, |k: int| value));
    }
    out
}

/// A row below the number of whole rows of a buffer lies inside the buffer.
pub proof fn lemma_row_inside(len: nat, width: nat, index: nat)
    requires
        width > 0,
        index < len / width,
    ensures
        (index + 1) * width <= len,
{
    assert((index + 1) * width <= (len / width) * width) by (nonlinear_arith)
        requires
            index + 1 <= len / width,
            width > 0,
    ;
    assert((len / width) * width <= len) by (nonlinear_arith)
        requires
            width > 0,
    ;
}

/// Row `index` of a buffer of rows of `width` elements.
pub fn row_of<T>(data: &[T], width: usize, index: usize) -> (r: &[T])
    requires
        (index + 1) * width <= data@.len(),
    ensures
        r@ == data@.subrange(index * width, (index + 1) * width),
{
    let total: usize = data.len();
    proof {
        assert(index * width + width == (index + 1) * width) by (nonlinear_arith);
        assert(0 <= index * width) by (nonlinear_arith)
            requires
                0 <= index,
                0 <= width,
        ;
    }
    slice_subrange(data, index * width, index * width + width)
}

impl<T: Copy> Tensor<T> {
    /// The dimension sizes, outermost first.
    pub closed spec fn dims(&self) -> Seq<usize> {
        self.shape@
    }

    /// The buffer holds exactly the elements that the shape describes.
    pub open spec fn wf(&self) -> bool {
        shape_size(self.dims()) == self@.len()
    }

    /// Takes ownership of `data` as the elements of a tensor of the given
    /// shape.
    pub fn new(data: Vec<T>, shape: &Vec<usize>) -> (r: Self)
        requires
            shape_size(shape@) == data@.len(),
        ensures
            r@ == data@,
            r.dims() == shape@,
            r.wf(),
    {
        Tensor { data, shape: copy_shape(shape) }
    }

    /// A tensor of the given shape that holds `value` everywhere.
    pub fn filled(shape: &Vec<usize>, value: T) -> (r: Self)
        requires
            shape_size(shape@) <= usize::MAX,
        ensures
            r@ == Seq::new(shape_size(shape@), |i: int| value),
            r.dims() == shape@,
            r.wf(),
    {
        match element_count(shape) {
            Some(n) => Tensor { data: repeated(value, n), shape: copy_shape(shape) },
            None => {
                proof {
                    assert(false);
                }
                vstd::pervasive::unreached()
            },
        }
    }

    /// A tensor of the given shape that holds the element type's default
    /// value everywhere.
    pub fn default(shape: &Vec<usize>) -> (r: Self) where T: Default
        requires
            shape_size(shape@) <= usize::MAX,
        ensures
            r@.len() == shape_size(shape@),
            forall|i: int, j: int| 0 <= i < r@.len() && 0 <= j < r@.len() ==> r@[i] == r@[j],
            r.dims() == shape@,
            r.wf(),
    {
        Self::filled(shape, T::default())
    }

    /// A tensor of its own with the same shape and the same elements.
    pub fn copy(&self) -> (r: Self)
        ensures
            r@ == self@,
            r.dims() == self.dims(),
    {
        let mut data: Vec<T> = Vec::new();
        let mut i: usize = 0;
        while i < self.data.len()
            invariant
                i <= self.data@.len(),
                data@ == self.data@.take(i as int),
            decreases self.data@.len() - i,
        {
            data.push(self.data[i]);
            proof {
                assert(self.data@.take(i + 1) == self.data@.take(i as int).push(self.data@[i as int]));
            }
            i += 1;
        }
        proof {
            assert(self.data@.take(self.data@.len() as int) == self.data@);
        }
        Tensor { data, shape: copy_shape(&self.shape) }
    }

    /// The elements in row-major order.
    pub fn data(&self) -> (r: &[T])
        ensures
            r@ == self@,
    {
        self.data.as_slice()
    }

    /// The dimension sizes, outermost first.
    pub fn shape(&self) -> (r: &Vec<usize>)
        ensures
            r@ == self.dims(),
    {
        &self.shape
    }

    /// The number of elements.
    pub fn size(&self) -> (r: usize)
        ensures
            r == self@.len(),
    {
        self.data.len()
    }

    /// The size of the innermost dimension: the number of elements in one
    /// row. A tensor without dimensions is a single row of one element.
    pub open spec fn width(&self) -> nat {
        if self.dims().len() == 0 {
            1
        } else {
            self.dims().last() as nat
        }
    }

    /// The number of rows: of groups of `width()` elements.
    pub open spec fn spec_rows(&self) -> nat {
        if self.width() == 0 {
            0
        } else {
            self@.len() / self.width()
        }
    }

    /// The number of elements in one row.
    pub fn row_width(&self) -> (r: usize)
        ensures
            r == self.width(),
    {
        if self.shape.len() == 0 {
            1
        } else {
            self.shape[self.shape.len() - 1]
        }
    }

    /// The number of rows.
    pub fn rows(&self) -> (r: usize)
        ensures
            r == self.spec_rows(),
    {
        let width: usize = self.row_width();
        if width == 0 {
            0
        } else {
            self.data.len() / width
        }
    }

    /// Row `index`: the elements along the innermost dimension at that
    /// place of the outer ones.
    pub fn row(&self, index: usize) -> (r: &[T])
        requires
            index < self.spec_rows(),
        ensures
            (index + 1) * self.width() <= self@.len(),
            r@ == self@.subrange(index * self.width(), (index + 1) * self.width()),
    {
        let width: usize = self.row_width();
        proof {
            lemma_row_inside(self@.len(), width as nat, index as nat);
        }
        row_of(self.data.as_slice(), width, index)
    }

    /// The element at flat position `index`.
    pub fn get(&self, index: usize) -> (r: T)
        requires
            index < self@.len(),
        ensures
            r == self@[index as int],
    {
        self.data[index]
    }

    /// Overwrites the element at flat position `index`; nothing else
    /// changes.
    pub fn set(&mut self, index: usize, value: T)
        requires
            index < old(self)@.len(),
        ensures
            final(self)@ == old(self)@.update(index as int, value),
            final(self).dims() == old(self).dims(),
    {
        self.data[index] = value;
    }

    /// Reinterprets the elements under another shape that describes the same
    /// number of them. No element moves.
    pub fn reshape(&mut self, new_shape: &Vec<usize>)
        requires
            shape_size(new_shape@) == old(self)@.len(),
        ensures
            final(self)@ == old(self)@,
            final(self).dims() == new_shape@,
            final(self).wf(),
    {
        self.shape = copy_shape(new_shape);
    }

    /// A read-only window of the given shape over the elements that start at
    /// flat position `start`.
    pub fn slice(&self, start: usize, shape: &Vec<usize>) -> (r: TensorSlice<'_, T>)
        requires
            start + shape_size(shape@) <= self@.len(),
        ensures
            r@ == self@.subrange(start as int, start + shape_size(shape@)),
            r.dims() == shape@,
            r.wf(),
    {
        let total: usize = self.data.len();
        match element_count(shape) {
            Some(n) => TensorSlice {
                data: slice_subrange(self.data.as_slice(), start, start + n),
                shape: copy_shape(shape),
            },
            None => {
                proof {
                    assert(false);
                }
                vstd::pervasive::unreached()
            },
        }
    }
}

impl<'a, T: Copy> TensorSlice<'a, T> {
    /// The dimension sizes, outermost first.
    pub closed spec fn dims(&self) -> Seq<usize> {
        self.shape@
    }

    /// The window holds exactly the elements that its shape describes.
    pub open spec fn wf(&self) -> bool {
        shape_size(self.dims()) == self@.len()
    }

    /// A window of the given shape over the whole of `data`.
    pub fn new(data: &'a [T], shape: &Vec<usize>) -> (r: Self)
        requires
            shape_size(shape@) == data@.len(),
        ensures
            r@ == data@,
            r.dims() == shape@,
            r.wf(),
    {
        TensorSlice { data, shape: copy_shape(shape) }
    }

    /// The elements in row-major order.
    pub fn data(&self) -> (r: &'a [T])
        ensures
            r@ == self@,
    {
        self.data
    }

    /// The dimension sizes, outermost first.
    pub fn shape(&self) -> (r: &Vec<usize>)
        ensures
            r@ == self.dims(),
    {
        &self.shape
    }

    /// The number of elements.
    pub fn size(&self) -> (r: usize)
        ensures
            r == self@.len(),
    {
        self.data.len()
    }

    /// The element at flat position `index` of the window.
    pub fn get(&self, index: usize) -> (r: T)
        requires
            index < self@.len(),
        ensures
            r == self@[index as int],
    {
        self.data[index]
    }

    /// The size of the innermost dimension: the number of elements in one
    /// row. A window without dimensions is a single row of one element.
    pub open spec fn width(&self) -> nat {
        if self.dims().len() == 0 {
            1
        } else {
            self.dims().last() as nat
        }
    }

    /// The number of rows: of groups of `width()` elements.
    pub open spec fn spec_rows(&self) -> nat {
        if self.width() == 0 {
            0
        } else {
            self@.len() / self.width()
        }
    }

    /// The number of elements in one row.
    pub fn row_width(&self) -> (r: usize)
        ensures
            r == self.width(),
    {
        if self.shape.len() == 0 {
            1
        } else {
            self.shape[self.shape.len() - 1]
        }
    }

    /// The number of rows.
    pub fn rows(&self) -> (r: usize)
        ensures
            r == self.spec_rows(),
    {
        let width: usize = self.row_width();
        if width == 0 {
            0
        } else {
            self.data.len() / width
        }
    }

    /// Row `index`: the elements along the innermost dimension at that
    /// place of the outer ones.
    pub fn row(&self, index: usize) -> (r: &'a [T])
        requires
            index < self.spec_rows(),
        ensures
            (index + 1) * self.width() <= self@.len(),
            r@ == self@.subrange(index * self.width(), (index + 1) * self.width()),
    {
        let width: usize = self.row_width();
        proof {
            lemma_row_inside(self@.len(), width as nat, index as nat);
        }
        row_of(self.data, width, index)
    }

    /// Copies the window into a tensor of its own.
    pub fn to_tensor(&self) -> (r: Tensor<T>)
        ensures
            r@ == self@,
            r.dims() == self.dims(),
    {
        let mut data: Vec<T> = Vec::new();
        let mut i: usize = 0;
        while i < self.data.len()
            invariant
                i <= self.data@.len(),
                data@ == self.data@.take(i as int),
            decreases self.data@.len() - i,
        {
            data.push(self.data[i]);
            proof {
                assert(self.data@.take(i + 1) == self.data@.take(i as int).push(self.data@[i as int]));
            }
            i += 1;
        }
        proof {
            assert(self.data@.take(self.data@.len() as int) == self.data@);
        }
        Tensor { data, shape: copy_shape(&self.shape) }
    }
}

} // verus!
