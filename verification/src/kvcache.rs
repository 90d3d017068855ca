//! The key/value cache: for each decoder layer one buffer of keys and one of
//! values, each with room for the longest sequence, and a single count of the
//! sequence positions that are in use.

use crate::shape::lemma_size_of_pair;
use crate::tensor::{Tensor, TensorSlice};
use vstd::prelude::*;

verus! {

/// Rows of the cache, as a pair of indices: the `rows` positions that start
/// at position `start`. A region names positions only; it is resolved against
/// the cache at the point of use.
#[derive(Clone, Copy, Debug, PartialEq, Eq)]
pub struct Region {
    pub start: usize,
    pub rows: usize,
}

/// Per-layer storage of attention keys and values.
pub struct KVCache<T> {
    k_cache: Vec<Tensor<T>>,
    v_cache: Vec<Tensor<T>>,
    max_seq_len: usize,
    dim: usize,
    length: usize,
}

impl<T: Copy> KVCache<T> {
    /// Number of decoder layers.
    pub closed spec fn layers(&self) -> nat {
        self.k_cache@.len()
    }

    /// Number of sequence positions that each buffer has room for.
    pub closed spec fn capacity(&self) -> nat {
        self.max_seq_len as nat
    }

    /// Number of elements in one row: one key or value vector for every
    /// key/value head.
    pub closed spec fn width(&self) -> nat {
        self.dim as nat
    }

    /// Number of sequence positions in use.
    pub closed spec fn spec_len(&self) -> nat {
        self.length as nat
    }

    /// The whole key buffer of a layer, `capacity()` rows of `width()`
    /// elements.
    pub closed spec fn keys(&self, layer: int) -> Seq<T> {
        self.k_cache@[layer]@
    }

    /// The whole value buffer of a layer, `capacity()` rows of `width()`
    /// elements.
    pub closed spec fn values(&self, layer: int) -> Seq<T> {
        self.v_cache@[layer]@
    }

    /// The rows `from..to` of a buffer of this cache.
    pub open spec fn rows(&self, buffer: Seq<T>, from: int, to: int) -> Seq<T> {
        buffer.subrange(from * self.width(), to * self.width())
    }

    /// The buffers have the size that the cache was made for, and no more
    /// positions are in use than there is room for.
    pub closed spec fn wf(&self) -> bool {
        &&& self.k_cache@.len() == self.v_cache@.len()
        &&& self.length <= self.max_seq_len
        &&& self.max_seq_len * self.dim <= usize::MAX
        &&& forall|l: int|
            0 <= l < self.k_cache@.len() ==> {
                &&& (#[trigger] self.k_cache@[l]).dims() == seq![self.max_seq_len, self.dim]
                &&& self.k_cache@[l]@.len() == self.max_seq_len * self.dim
            }
        &&& forall|l: int|
            0 <= l < self.v_cache@.len() ==> {
                &&& (#[trigger] self.v_cache@[l]).dims() == seq![self.max_seq_len, self.dim]
                &&& self.v_cache@[l]@.len() == self.max_seq_len * self.dim
            }
    }

    /// What well-formedness says of the sizes.
    pub proof fn lemma_sizes(&self)
        requires
            self.wf(),
        ensures
            self.spec_len() <= self.capacity(),
            self.capacity() * self.width() <= usize::MAX,
            forall|l: int|
                0 <= l < self.layers() ==> (#[trigger] self.keys(l)).len() == self.capacity()
                    * self.width(),
            forall|l: int|
                0 <= l < self.layers() ==> (#[trigger] self.values(l)).len() == self.capacity()
                    * self.width(),
    {
    }

    /// One buffer for each layer, filled with the default element.
    fn buffers(n_layers: usize, max_seq_len: usize, dim: usize) -> (r: Vec<Tensor<T>>) where
        T: Default,

        requires
            max_seq_len * dim <= usize::MAX,
        ensures
            r@.len() == n_layers,
            forall|l: int|
                0 <= l < n_layers ==> {
                    &&& (#[trigger] r@[l]).dims() == seq![max_seq_len, dim]
                    &&& r@[l]@.len() == max_seq_len * dim
                    &&& forall|i: int, j: int|
                        0 <= i < r@[l]@.len() && 0 <= j < r@[l]@.len() ==> r@[l]@[i] == r@[l]@[j]
                },
    {
        let shape: Vec<usize> = vec![max_seq_len, dim];
        proof {
            assert(shape@ == seq![max_seq_len, dim]);
            lemma_size_of_pair(max_seq_len, dim);
        }
        let mut out: Vec<Tensor<T>> = Vec::new();
        let mut l: usize = 0;
        while l < n_layers
            invariant
                l <= n_layers,
                out@.len() == l,
                shape@ == seq![max_seq_len, dim],
                crate::shape::shape_size(shape@) == max_seq_len * dim,
                max_seq_len * dim <= usize::MAX,
                forall|k: int|
                    0 <= k < l ==> {
                        &&& (#[trigger] out@[k]).dims() == seq![max_seq_len, dim]
                        &&& out@[k]@.len() == max_seq_len * dim
                        &&& forall|i: int, j: int|
                            0 <= i < out@[k]@.len() && 0 <= j < out@[k]@.len() ==> out@[k]@[i]
                                == out@[k]@[j]
                    },
            decreases n_layers - l,
        {
            out.push(Tensor::default(&shape));
            l += 1;
        }
        out
    }

    /// A cache for `n_layers` layers with room for `max_seq_len` positions of
    /// `dim` elements each, of which the first `init_len` count as in use.
    /// Every buffer is filled with the default element.
    pub fn new(n_layers: usize, max_seq_len: usize, dim: usize, init_len: usize) -> (r: Self) where
        T: Default,

        requires
            max_seq_len * dim <= usize::MAX,
            init_len <= max_seq_len,
        ensures
            r.wf(),
            r.layers() == n_layers,
            r.capacity() == max_seq_len,
            r.width() == dim,
            r.spec_len() == init_len,
            forall|l: int, i: int, j: int|
                0 <= l < n_layers && 0 <= i < max_seq_len * dim && 0 <= j < max_seq_len * dim
                    ==> r.keys(l)[i] == r.keys(l)[j] && r.values(l)[i] == r.values(l)[j],
    {
        KVCache {
            k_cache: Self::buffers(n_layers, max_seq_len, dim),
            v_cache: Self::buffers(n_layers, max_seq_len, dim),
            max_seq_len,
            dim,
            length: init_len,
        }
    }

    /// Number of sequence positions in use.
    pub fn len(&self) -> (r: usize)
        ensures
            r == self.spec_len(),
    {
        self.length
    }

    /// Number of sequence positions that the cache has room for.
    pub fn max_len(&self) -> (r: usize)
        ensures
            r == self.capacity(),
    {
        self.max_seq_len
    }

    /// Number of elements in one row.
    pub fn row_width(&self) -> (r: usize)
        ensures
            r == self.width(),
    {
        self.dim
    }

    /// Number of decoder layers.
    pub fn n_layers(&self) -> (r: usize)
        ensures
            r == self.layers(),
    {
        self.k_cache.len()
    }

    /// Takes `seq_len` more positions into use and names them. No element of
    /// any buffer changes: what was written to the positions in use before
    /// the call is still there, and the new positions are yet to be written.
    pub fn increment(&mut self, seq_len: usize) -> (r: Region)
        requires
            old(self).wf(),
            old(self).spec_len() + seq_len <= old(self).capacity(),
        ensures
            final(self).wf(),
            final(self).spec_len() == old(self).spec_len() + seq_len,
            r.start == old(self).spec_len(),
            r.rows == seq_len,
            final(self).holds(r),
            final(self).layers() == old(self).layers(),
            final(self).capacity() == old(self).capacity(),
            final(self).width() == old(self).width(),
            forall|l: int|
                0 <= l < old(self).layers() ==> final(self).keys(l) == old(self).keys(l)
                    && final(self).values(l) == old(self).values(l),
    {
        let start: usize = self.length;
        self.length = self.length + seq_len;
        Region { start, rows: seq_len }
    }

    /// The keys of a layer from position `start` up to the positions in use,
    /// as a window of `len() - start` rows.
    pub fn k_cache(&self, layer: usize, start: usize) -> (r: TensorSlice<'_, T>)
        requires
            self.wf(),
            layer < self.layers(),
            start <= self.spec_len(),
        ensures
            r@ == self.rows(self.keys(layer as int), start as int, self.spec_len() as int),
            r.dims() == seq![(self.spec_len() - start) as usize, self.width() as usize],
            r.wf(),
    {
        let rows: usize = self.length - start;
        proof {
            Self::lemma_window(self.max_seq_len, self.dim, start, self.length);
            lemma_size_of_pair(rows, self.dim);
        }
        let shape: Vec<usize> = vec![rows, self.dim];
        assert(shape@ == seq![rows, self.dim]);
        self.k_cache[layer].slice(start * self.dim, &shape)
    }

    /// The values of a layer from position `start` up to the positions in
    /// use, as a window of `len() - start` rows.
    pub fn v_cache(&self, layer: usize, start: usize) -> (r: TensorSlice<'_, T>)
        requires
            self.wf(),
            layer < self.layers(),
            start <= self.spec_len(),
        ensures
            r@ == self.rows(self.values(layer as int), start as int, self.spec_len() as int),
            r.dims() == seq![(self.spec_len() - start) as usize, self.width() as usize],
            r.wf(),
    {
        let rows: usize = self.length - start;
        proof {
            Self::lemma_window(self.max_seq_len, self.dim, start, self.length);
            lemma_size_of_pair(rows, self.dim);
        }
        let shape: Vec<usize> = vec![rows, self.dim];
        assert(shape@ == seq![rows, self.dim]);
        self.v_cache[layer].slice(start * self.dim, &shape)
    }

    /// The rows `start..end` of a buffer of `max` rows lie inside it.
    proof fn lemma_window(max: usize, dim: usize, start: usize, end: usize)
        requires
            start <= end <= max,
            max * dim <= usize::MAX,
        ensures
            start * dim + (end - start) * dim == end * dim,
            end * dim <= max * dim,
            0 <= start * dim <= end * dim,
    {
        assert(start * dim + (end - start) * dim == end * dim) by (nonlinear_arith);
        assert(end * dim <= max * dim) by (nonlinear_arith)
            requires
                end <= max,
        ;
        assert(0 <= start * dim <= end * dim) by (nonlinear_arith)
            requires
                start <= end,
        ;
    }

    /// The flat position of column `col` of row `pos` lies inside a buffer,
    /// and inside the rows in use.
    proof fn lemma_cell(max: usize, dim: usize, len: usize, pos: usize, col: usize)
        requires
            pos < len <= max,
            col < dim,
            max * dim <= usize::MAX,
        ensures
            pos * dim + col < len * dim <= max * dim,
    {
        assert(pos * dim + col < len * dim) by (nonlinear_arith)
            requires
                pos < len,
                col < dim,
        ;
        assert(len * dim <= max * dim) by (nonlinear_arith)
            requires
                len <= max,
        ;
    }

    /// A region names rows that are in use.
    pub open spec fn holds(&self, region: Region) -> bool {
        region.start + region.rows <= self.spec_len()
    }

    /// The flat place `index` of a region lies inside a buffer, behind the
    /// rows before the region.
    proof fn lemma_place(max: usize, dim: usize, len: usize, region: Region, index: usize)
        requires
            region.start + region.rows <= len <= max,
            index < region.rows * dim,
            max * dim <= usize::MAX,
        ensures
            0 <= region.start * dim,
            region.start * dim + index < len * dim <= max * dim,
    {
        assert(region.start * dim + region.rows * dim == (region.start + region.rows) * dim)
            by (nonlinear_arith);
        assert(0 <= region.start * dim && (region.start + region.rows) * dim <= len * dim && len
            * dim <= max * dim) by (nonlinear_arith)
            requires
                0 <= region.start,
                region.start + region.rows <= len <= max,
                0 <= dim,
        ;
    }

    /// The key element at flat place `index` of a region: its rows are
    /// counted from the region's first.
    pub fn read_k_in(&self, layer: usize, region: &Region, index: usize) -> (r: T)
        requires
            self.wf(),
            layer < self.layers(),
            self.holds(*region),
            index < region.rows * self.width(),
        ensures
            region.start * self.width() + index < self.keys(layer as int).len(),
            r == self.keys(layer as int)[region.start * self.width() + index],
    {
        proof {
            Self::lemma_place(self.max_seq_len, self.dim, self.length, *region, index);
        }
        self.k_cache[layer].get(region.start * self.dim + index)
    }

    /// The value element at flat place `index` of a region.
    pub fn read_v_in(&self, layer: usize, region: &Region, index: usize) -> (r: T)
        requires
            self.wf(),
            layer < self.layers(),
            self.holds(*region),
            index < region.rows * self.width(),
        ensures
            region.start * self.width() + index < self.values(layer as int).len(),
            r == self.values(layer as int)[region.start * self.width() + index],
    {
        proof {
            Self::lemma_place(self.max_seq_len, self.dim, self.length, *region, index);
        }
        self.v_cache[layer].get(region.start * self.dim + index)
    }

    /// Writes the key element at flat place `index` of a region, in place.
    /// No other element of the cache changes.
    pub fn write_k_in(&mut self, layer: usize, region: &Region, index: usize, value: T)
        requires
            old(self).wf(),
            layer < old(self).layers(),
            old(self).holds(*region),
            index < region.rows * old(self).width(),
        ensures
            final(self).wf(),
            final(self).spec_len() == old(self).spec_len(),
            final(self).layers() == old(self).layers(),
            final(self).capacity() == old(self).capacity(),
            final(self).width() == old(self).width(),
            final(self).keys(layer as int) == old(self).keys(layer as int).update(
                region.start * old(self).width() + index,
                value,
            ),
            forall|l: int|
                0 <= l < old(self).layers() && l != layer ==> final(self).keys(l) == old(
                    self,
                ).keys(l),
            forall|l: int| 0 <= l < old(self).layers() ==> final(self).values(l) == old(self).values(l),
    {
        proof {
            Self::lemma_place(self.max_seq_len, self.dim, self.length, *region, index);
        }
        let place: usize = region.start * self.dim + index;
        let buffer = &mut self.k_cache[layer];
        buffer.set(place, value);
    }

    /// Writes the value element at flat place `index` of a region, in place.
    /// No other element of the cache changes.
    pub fn write_v_in(&mut self, layer: usize, region: &Region, index: usize, value: T)
        requires
            old(self).wf(),
            layer < old(self).layers(),
            old(self).holds(*region),
            index < region.rows * old(self).width(),
        ensures
            final(self).wf(),
            final(self).spec_len() == old(self).spec_len(),
            final(self).layers() == old(self).layers(),
            final(self).capacity() == old(self).capacity(),
            final(self).width() == old(self).width(),
            final(self).values(layer as int) == old(self).values(layer as int).update(
                region.start * old(self).width() + index,
                value,
            ),
            forall|l: int|
                0 <= l < old(self).layers() && l != layer ==> final(self).values(l) == old(
                    self,
                ).values(l),
            forall|l: int| 0 <= l < old(self).layers() ==> final(self).keys(l) == old(self).keys(l),
    {
        proof {
            Self::lemma_place(self.max_seq_len, self.dim, self.length, *region, index);
        }
        let place: usize = region.start * self.dim + index;
        let buffer = &mut self.v_cache[layer];
        buffer.set(place, value);
    }

    /// The key element at column `col` of position `pos`.
    pub fn read_k(&self, layer: usize, pos: usize, col: usize) -> (r: T)
        requires
            self.wf(),
            layer < self.layers(),
            pos < self.spec_len(),
            col < self.width(),
        ensures
            pos * self.width() + col < self.keys(layer as int).len(),
            r == self.keys(layer as int)[pos * self.width() + col],
    {
        proof {
            Self::lemma_cell(self.max_seq_len, self.dim, self.length, pos, col);
        }
        self.k_cache[layer].get(pos * self.dim + col)
    }

    /// The value element at column `col` of position `pos`.
    pub fn read_v(&self, layer: usize, pos: usize, col: usize) -> (r: T)
        requires
            self.wf(),
            layer < self.layers(),
            pos < self.spec_len(),
            col < self.width(),
        ensures
            pos * self.width() + col < self.values(layer as int).len(),
            r == self.values(layer as int)[pos * self.width() + col],
    {
        proof {
            Self::lemma_cell(self.max_seq_len, self.dim, self.length, pos, col);
        }
        self.v_cache[layer].get(pos * self.dim + col)
    }

    /// Writes the key element at column `col` of a position in use, in place.
    /// No other element of the cache changes.
    pub fn write_k(&mut self, layer: usize, pos: usize, col: usize, value: T)
        requires
            old(self).wf(),
            layer < old(self).layers(),
            pos < old(self).spec_len(),
            col < old(self).width(),
        ensures
            final(self).wf(),
            final(self).spec_len() == old(self).spec_len(),
            final(self).layers() == old(self).layers(),
            final(self).capacity() == old(self).capacity(),
            final(self).width() == old(self).width(),
            final(self).keys(layer as int) == old(self).keys(layer as int).update(
                pos * old(self).width() + col,
                value,
            ),
            forall|l: int|
                0 <= l < old(self).layers() && l != layer ==> final(self).keys(l) == old(
                    self,
                ).keys(l),
            forall|l: int| 0 <= l < old(self).layers() ==> final(self).values(l) == old(self).values(l),
    {
        proof {
            Self::lemma_cell(self.max_seq_len, self.dim, self.length, pos, col);
        }
        let index: usize = pos * self.dim + col;
        let buffer = &mut self.k_cache[layer];
        buffer.set(index, value);
    }

    /// Writes the value element at column `col` of a position in use, in
    /// place. No other element of the cache changes.
    pub fn write_v(&mut self, layer: usize, pos: usize, col: usize, value: T)
        requires
            old(self).wf(),
            layer < old(self).layers(),
            pos < old(self).spec_len(),
            col < old(self).width(),
        ensures
            final(self).wf(),
            final(self).spec_len() == old(self).spec_len(),
            final(self).layers() == old(self).layers(),
            final(self).capacity() == old(self).capacity(),
            final(self).width() == old(self).width(),
            final(self).values(layer as int) == old(self).values(layer as int).update(
                pos * old(self).width() + col,
                value,
            ),
            forall|l: int|
                0 <= l < old(self).layers() && l != layer ==> final(self).values(l) == old(
                    self,
                ).values(l),
            forall|l: int| 0 <= l < old(self).layers() ==> final(self).keys(l) == old(self).keys(l),
    {
        proof {
            Self::lemma_cell(self.max_seq_len, self.dim, self.length, pos, col);
        }
        let index: usize = pos * self.dim + col;
        let buffer = &mut self.v_cache[layer];
        buffer.set(index, value);
    }
}

} // verus!
