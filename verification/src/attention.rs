//! The index layout of grouped-query attention: where the element of a query
//! head, of a key/value head and of an attention score lies in its buffer, and
//! which scores the causal mask blanks.

use crate::tensor::Tensor;
use vstd::arithmetic::div_mod::lemma_fundamental_div_mod_converse;
use vstd::prelude::*;
use vstd::slice::slice_subrange;

verus! {

/// The sizes that one attention pass works on. Each key/value head is shared
/// by `n_groups` query heads; `seq_len` new positions attend to
/// `total_seq_len` positions, the last `seq_len` of which are the new ones.
#[derive(Clone, Copy, Debug, PartialEq, Eq, Structural)]
pub struct AttentionShape {
    /// Number of key/value heads.
    pub n_kv_h: usize,
    /// Number of query heads that share one key/value head.
    pub n_groups: usize,
    /// Number of query positions.
    pub seq_len: usize,
    /// Number of key positions.
    pub total_seq_len: usize,
    /// Length of a single query, key or value vector.
    pub dqkv: usize,
}

/// In a grid of `rows` by `cols` cells stored row by row, the cell at
/// (`row`, `col`) has a place of its own inside the grid.
pub proof fn lemma_cell_in_grid(row: int, rows: int, col: int, cols: int)
    requires
        0 <= row < rows,
        0 <= col < cols,
    ensures
        0 <= row * cols + col < rows * cols,
        0 <= row * cols <= rows * cols,
        cols <= rows * cols,
        (row * cols + col) / cols == row,
        (row * cols + col) % cols == col,
{
    assert(0 <= row * cols + col < rows * cols && 0 <= row * cols <= rows * cols && cols <= rows
        * cols) by (nonlinear_arith)
        requires
            0 <= row < rows,
            0 <= col < cols,
    ;
    lemma_fundamental_div_mod_converse(row * cols + col, cols, row, col);
}

/// The sizes of a buffer that rotary position embedding is applied to:
/// `seq_len` positions of `n_heads` vectors of `d` elements. Each vector is
/// rotated pair by pair; pair `j` is made of the adjacent elements `2j` and
/// `2j + 1`.
#[derive(Clone, Copy, Debug, PartialEq, Eq, Structural)]
pub struct RotaryShape {
    /// Number of positions.
    pub seq_len: usize,
    /// Number of heads.
    pub n_heads: usize,
    /// Length of one vector.
    pub d: usize,
}

impl RotaryShape {
    /// Number of elements of the buffer.
    pub open spec fn size(&self) -> int {
        self.seq_len * self.n_heads * self.d
    }

    /// Number of pairs in one vector. The last element of a vector of odd
    /// length belongs to no pair.
    pub open spec fn pairs(&self) -> int {
        (self.d as int) / 2
    }

    /// Place of the first element of pair `pair` of head `head` at row `tok`;
    /// the second element lies right behind it.
    pub open spec fn pair_at(&self, tok: int, head: int, pair: int) -> int {
        (tok * self.n_heads + head) * self.d + 2 * pair
    }

    /// The coordinates are those of a pair.
    pub open spec fn pair_coords(&self, tok: int, head: int, pair: int) -> bool {
        &&& 0 <= tok < self.seq_len
        &&& 0 <= head < self.n_heads
        &&& 0 <= pair < self.pairs()
    }

    /// Both elements of a pair lie inside the buffer, and the coordinates of
    /// the pair can be read back from its place: no two pairs share an
    /// element.
    pub proof fn lemma_pair_at(&self, tok: int, head: int, pair: int)
        requires
            self.pair_coords(tok, head, pair),
        ensures
            0 <= self.pair_at(tok, head, pair),
            self.pair_at(tok, head, pair) + 1 < self.size(),
            0 <= tok * self.n_heads + head < self.seq_len * self.n_heads,
            (self.pair_at(tok, head, pair) % (self.d as int)) / 2 == pair,
            (self.pair_at(tok, head, pair) / (self.d as int)) % (self.n_heads as int) == head,
            (self.pair_at(tok, head, pair) / (self.d as int)) / (self.n_heads as int) == tok,
    {
        lemma_cell_in_grid(tok, self.seq_len as int, head, self.n_heads as int);
        lemma_cell_in_grid(
            tok * self.n_heads + head,
            self.seq_len * self.n_heads,
            2 * pair,
            self.d as int,
        );
        lemma_cell_in_grid(
            tok * self.n_heads + head,
            self.seq_len * self.n_heads,
            2 * pair + 1,
            self.d as int,
        );
    }

    /// The shape that a buffer of `len` elements has as rows of `n_heads`
    /// vectors of `d` elements, or nothing where it has no such shape.
    pub fn new(len: usize, n_heads: usize, d: usize) -> (r: Option<Self>)
        ensures
            match r {
                Some(shape) => shape.n_heads == n_heads && shape.d == d && shape.size() == len
                    && n_heads * d > 0,
                None => n_heads * d == 0 || n_heads * d > usize::MAX || (len as int) % (n_heads
                    * d) != 0,
            },
    {
        let width: usize = n_heads.checked_mul(d)?;
        if width == 0 || len % width != 0 {
            return None;
        }
        let seq_len: usize = len / width;
        proof {
            assert(seq_len * width == len) by (nonlinear_arith)
                requires
                    seq_len == (len as int) / (width as int),
                    (len as int) % (width as int) == 0,
                    width > 0,
            ;
            assert(seq_len * n_heads * d == seq_len * (n_heads * d)) by (nonlinear_arith);
        }
        Some(RotaryShape { seq_len, n_heads, d })
    }

    /// Number of pairs in one vector.
    pub fn pair_count(&self) -> (r: usize)
        ensures
            r == self.pairs(),
    {
        self.d / 2
    }

    /// Place of the first element of pair `pair` of head `head` at row
    /// `tok`.
    pub fn pair_index(&self, tok: usize, head: usize, pair: usize) -> (r: usize)
        requires
            self.size() <= usize::MAX,
            self.pair_coords(tok as int, head as int, pair as int),
        ensures
            r == self.pair_at(tok as int, head as int, pair as int),
            r + 1 < self.size(),
    {
        proof {
            self.lemma_pair_at(tok as int, head as int, pair as int);
            lemma_cell_in_grid(tok as int, self.seq_len as int, head as int, self.n_heads as int);
            lemma_cell_in_grid(
                (tok * self.n_heads + head) as int,
                self.seq_len * self.n_heads,
                0,
                self.d as int,
            );
        }
        (tok * self.n_heads + head) * self.d + 2 * pair
    }
}

impl AttentionShape {
    /// Number of query heads.
    pub open spec fn heads(&self) -> int {
        self.n_kv_h * self.n_groups
    }

    /// Number of elements in one row of queries, and of attention output.
    pub open spec fn q_width(&self) -> int {
        self.heads() * self.dqkv
    }

    /// Number of elements in one row of keys, and of values.
    pub open spec fn kv_width(&self) -> int {
        self.n_kv_h * self.dqkv
    }

    /// Number of elements of the query buffer, and of the output buffer.
    pub open spec fn q_size(&self) -> int {
        self.seq_len * self.q_width()
    }

    /// Number of elements of the key buffer, and of the value buffer.
    pub open spec fn kv_size(&self) -> int {
        self.total_seq_len * self.kv_width()
    }

    /// Number of attention scores.
    pub open spec fn score_size(&self) -> int {
        self.heads() * self.seq_len * self.total_seq_len
    }

    /// The new positions are among the key positions, and the three buffers
    /// can be counted in a machine word.
    pub open spec fn wf(&self) -> bool {
        &&& self.seq_len <= self.total_seq_len
        &&& self.heads() <= usize::MAX
        &&& self.q_width() <= usize::MAX
        &&& self.kv_width() <= usize::MAX
        &&& self.q_size() <= usize::MAX
        &&& self.kv_size() <= usize::MAX
        &&& self.heads() * self.seq_len <= usize::MAX
        &&& self.score_size() <= usize::MAX
    }

    /// Place of element `d` of the query head (`kv_head`, `group`) at query
    /// position `q_pos`. The attention output of that head lies at the same
    /// place of the output buffer.
    pub open spec fn q_at(&self, q_pos: int, kv_head: int, group: int, d: int) -> int {
        q_pos * self.q_width() + (kv_head * self.n_groups + group) * self.dqkv + d
    }

    /// Place of element `d` of the key/value head `kv_head` at key position
    /// `k_pos`.
    pub open spec fn kv_at(&self, k_pos: int, kv_head: int, d: int) -> int {
        k_pos * self.kv_width() + kv_head * self.dqkv + d
    }

    /// Place of the score of query position `q_pos` against key position
    /// `k_pos` for the query head (`kv_head`, `group`).
    pub open spec fn score_at(&self, kv_head: int, group: int, q_pos: int, k_pos: int) -> int {
        ((kv_head * self.n_groups + group) * self.seq_len + q_pos) * self.total_seq_len + k_pos
    }

    /// Whether the query at `q_pos` may attend to the key at `k_pos`. The
    /// query positions are the last `seq_len` of the key positions, and a query
    /// sees the keys up to its own position.
    pub open spec fn visible(&self, q_pos: int, k_pos: int) -> bool {
        k_pos <= q_pos + (self.total_seq_len - self.seq_len)
    }

    /// Whether the causal mask blanks the score at flat place `index`.
    pub open spec fn blanked(&self, index: int) -> bool {
        !self.visible((index / (self.total_seq_len as int)) % (self.seq_len as int), index % (
        self.total_seq_len as int))
    }

    /// The coordinates are those of a query element.
    pub open spec fn q_coords(&self, q_pos: int, kv_head: int, group: int, d: int) -> bool {
        &&& 0 <= q_pos < self.seq_len
        &&& 0 <= kv_head < self.n_kv_h
        &&& 0 <= group < self.n_groups
        &&& 0 <= d < self.dqkv
    }

    /// The coordinates are those of a key or value element.
    pub open spec fn kv_coords(&self, k_pos: int, kv_head: int, d: int) -> bool {
        &&& 0 <= k_pos < self.total_seq_len
        &&& 0 <= kv_head < self.n_kv_h
        &&& 0 <= d < self.dqkv
    }

    /// The coordinates are those of a score.
    pub open spec fn score_coords(&self, kv_head: int, group: int, q_pos: int, k_pos: int) -> bool {
        &&& 0 <= kv_head < self.n_kv_h
        &&& 0 <= group < self.n_groups
        &&& 0 <= q_pos < self.seq_len
        &&& 0 <= k_pos < self.total_seq_len
    }

    /// A query element lies inside the query buffer, and its coordinates can
    /// be read back from its place: no two query elements share a place.
    pub proof fn lemma_q_at(&self, q_pos: int, kv_head: int, group: int, d: int)
        requires
            self.q_coords(q_pos, kv_head, group, d),
        ensures
            0 <= self.q_at(q_pos, kv_head, group, d) < self.q_size(),
            0 <= kv_head * self.n_groups + group < self.heads(),
            0 <= (kv_head * self.n_groups + group) * self.dqkv + d < self.q_width(),
            self.q_width() <= self.q_size(),
            self.heads() <= self.q_width(),
            self.q_at(q_pos, kv_head, group, d) / self.q_width() == q_pos,
            (self.q_at(q_pos, kv_head, group, d) % self.q_width()) % (self.dqkv as int) == d,
            ((self.q_at(q_pos, kv_head, group, d) % self.q_width()) / (self.dqkv as int)) % (
            self.n_groups as int) == group,
            ((self.q_at(q_pos, kv_head, group, d) % self.q_width()) / (self.dqkv as int)) / (
            self.n_groups as int) == kv_head,
    {
        let head = kv_head * self.n_groups + group;
        lemma_cell_in_grid(kv_head, self.n_kv_h as int, group, self.n_groups as int);
        lemma_cell_in_grid(head, self.heads(), d, self.dqkv as int);
        lemma_cell_in_grid(q_pos, self.seq_len as int, head * self.dqkv + d, self.q_width());
        assert(self.heads() <= self.heads() * self.dqkv) by (nonlinear_arith)
            requires
                self.heads() >= 0,
                self.dqkv >= 1,
        ;
    }

    /// A key or value element lies inside its buffer, and its coordinates can
    /// be read back from its place.
    pub proof fn lemma_kv_at(&self, k_pos: int, kv_head: int, d: int)
        requires
            self.kv_coords(k_pos, kv_head, d),
        ensures
            0 <= self.kv_at(k_pos, kv_head, d) < self.kv_size(),
            0 <= kv_head * self.dqkv + d < self.kv_width(),
            self.kv_width() <= self.kv_size(),
            self.kv_at(k_pos, kv_head, d) / self.kv_width() == k_pos,
            (self.kv_at(k_pos, kv_head, d) % self.kv_width()) % (self.dqkv as int) == d,
            (self.kv_at(k_pos, kv_head, d) % self.kv_width()) / (self.dqkv as int) == kv_head,
    {
        lemma_cell_in_grid(kv_head, self.n_kv_h as int, d, self.dqkv as int);
        lemma_cell_in_grid(
            k_pos,
            self.total_seq_len as int,
            kv_head * self.dqkv + d,
            self.kv_width(),
        );
    }

    /// A score lies inside the score buffer, and its coordinates can be read
    /// back from its place: no two scores share a place.
    pub proof fn lemma_score_at(&self, kv_head: int, group: int, q_pos: int, k_pos: int)
        requires
            self.score_coords(kv_head, group, q_pos, k_pos),
        ensures
            0 <= self.score_at(kv_head, group, q_pos, k_pos) < self.score_size(),
            0 <= kv_head * self.n_groups + group < self.heads(),
            0 <= (kv_head * self.n_groups + group) * self.seq_len + q_pos < self.heads()
                * self.seq_len,
            self.score_at(kv_head, group, q_pos, k_pos) % (self.total_seq_len as int) == k_pos,
            (self.score_at(kv_head, group, q_pos, k_pos) / (self.total_seq_len as int)) % (
            self.seq_len as int) == q_pos,
            ((self.score_at(kv_head, group, q_pos, k_pos) / (self.total_seq_len as int)) / (
            self.seq_len as int)) % (self.n_groups as int) == group,
            ((self.score_at(kv_head, group, q_pos, k_pos) / (self.total_seq_len as int)) / (
            self.seq_len as int)) / (self.n_groups as int) == kv_head,
            self.blanked(self.score_at(kv_head, group, q_pos, k_pos)) == !self.visible(
                q_pos,
                k_pos,
            ),
    {
        let head = kv_head * self.n_groups + group;
        lemma_cell_in_grid(kv_head, self.n_kv_h as int, group, self.n_groups as int);
        lemma_cell_in_grid(head, self.heads(), q_pos, self.seq_len as int);
        lemma_cell_in_grid(
            head * self.seq_len + q_pos,
            self.heads() * self.seq_len,
            k_pos,
            self.total_seq_len as int,
        );
    }

    /// The shape of an attention pass, or nothing where the new positions
    /// outnumber the key positions or a buffer of that shape would have more
    /// elements than a machine word can count.
    pub fn new(n_kv_h: usize, n_groups: usize, seq_len: usize, total_seq_len: usize, dqkv: usize) -> (r:
        Option<Self>)
        ensures
            match r {
                Some(shape) => shape.wf() && shape == (AttentionShape {
                    n_kv_h,
                    n_groups,
                    seq_len,
                    total_seq_len,
                    dqkv,
                }),
                None => !(AttentionShape { n_kv_h, n_groups, seq_len, total_seq_len, dqkv }).wf(),
            },
    {
        if seq_len > total_seq_len {
            return None;
        }
        let heads: usize = n_kv_h.checked_mul(n_groups)?;
        let q_width: usize = heads.checked_mul(dqkv)?;
        let kv_width: usize = n_kv_h.checked_mul(dqkv)?;
        let q_size: usize = seq_len.checked_mul(q_width)?;
        let kv_size: usize = total_seq_len.checked_mul(kv_width)?;
        let rows: usize = heads.checked_mul(seq_len)?;
        let scores: usize = rows.checked_mul(total_seq_len)?;
        Some(AttentionShape { n_kv_h, n_groups, seq_len, total_seq_len, dqkv })
    }

    /// Place of element `d` of the query head (`kv_head`, `group`) at query
    /// position `q_pos`, in the query buffer and in the output buffer.
    pub fn q_index(&self, q_pos: usize, kv_head: usize, group: usize, d: usize) -> (r: usize)
        requires
            self.wf(),
            self.q_coords(q_pos as int, kv_head as int, group as int, d as int),
        ensures
            r == self.q_at(q_pos as int, kv_head as int, group as int, d as int),
            r < self.q_size(),
    {
        proof {
            self.lemma_q_at(q_pos as int, kv_head as int, group as int, d as int);
            lemma_cell_in_grid(kv_head as int, self.n_kv_h as int, group as int, self.n_groups as int);
            lemma_cell_in_grid(q_pos as int, self.seq_len as int, 0, self.q_width());
        }
        let heads: usize = self.n_kv_h * self.n_groups;
        let width: usize = heads * self.dqkv;
        let head: usize = kv_head * self.n_groups + group;
        q_pos * width + (head * self.dqkv + d)
    }

    /// Place of element `d` of the key/value head `kv_head` at key position
    /// `k_pos`, in the key buffer and in the value buffer.
    pub fn kv_index(&self, k_pos: usize, kv_head: usize, d: usize) -> (r: usize)
        requires
            self.wf(),
            self.kv_coords(k_pos as int, kv_head as int, d as int),
        ensures
            r == self.kv_at(k_pos as int, kv_head as int, d as int),
            r < self.kv_size(),
    {
        proof {
            self.lemma_kv_at(k_pos as int, kv_head as int, d as int);
            lemma_cell_in_grid(k_pos as int, self.total_seq_len as int, 0, self.kv_width());
        }
        let width: usize = self.n_kv_h * self.dqkv;
        k_pos * width + (kv_head * self.dqkv + d)
    }

    /// Place of the score of query position `q_pos` against key position
    /// `k_pos` for the query head (`kv_head`, `group`).
    pub fn score_index(&self, kv_head: usize, group: usize, q_pos: usize, k_pos: usize) -> (r: usize)
        requires
            self.wf(),
            self.score_coords(kv_head as int, group as int, q_pos as int, k_pos as int),
        ensures
            r == self.score_at(kv_head as int, group as int, q_pos as int, k_pos as int),
            r < self.score_size(),
    {
        proof {
            self.lemma_score_at(kv_head as int, group as int, q_pos as int, k_pos as int);
            lemma_cell_in_grid(kv_head as int, self.n_kv_h as int, group as int, self.n_groups as int);
            lemma_cell_in_grid(
                (kv_head * self.n_groups + group) as int,
                self.heads(),
                q_pos as int,
                self.seq_len as int,
            );
            lemma_cell_in_grid(
                ((kv_head * self.n_groups + group) * self.seq_len + q_pos) as int,
                self.heads() * self.seq_len,
                0,
                self.total_seq_len as int,
            );
        }
        let head: usize = kv_head * self.n_groups + group;
        (head * self.seq_len + q_pos) * self.total_seq_len + k_pos
    }

    /// The vector of the query head (`kv_head`, `group`) at query position
    /// `q_pos`, out of a query buffer.
    pub fn q_head<'a, T>(&self, q: &'a [T], q_pos: usize, kv_head: usize, group: usize) -> (r: &'a [T])
        requires
            self.wf(),
            q@.len() == self.q_size(),
            0 <= q_pos < self.seq_len,
            0 <= kv_head < self.n_kv_h,
            0 <= group < self.n_groups,
        ensures
            r@.len() == self.dqkv,
            forall|d: int|
                0 <= d < self.dqkv ==> #[trigger] r@[d] == q@[self.q_at(
                    q_pos as int,
                    kv_head as int,
                    group as int,
                    d,
                )],
    {
        if self.dqkv == 0 {
            return slice_subrange(q, 0, 0);
        }
        proof {
            self.lemma_q_at(q_pos as int, kv_head as int, group as int, 0);
            self.lemma_q_at(q_pos as int, kv_head as int, group as int, self.dqkv - 1);
        }
        let start: usize = self.q_index(q_pos, kv_head, group, 0);
        slice_subrange(q, start, start + self.dqkv)
    }

    /// The vector of the key/value head `kv_head` at key position `k_pos`,
    /// out of a key buffer or a value buffer.
    pub fn kv_head<'a, T>(&self, kv: &'a [T], k_pos: usize, kv_head: usize) -> (r: &'a [T])
        requires
            self.wf(),
            kv@.len() == self.kv_size(),
            0 <= k_pos < self.total_seq_len,
            0 <= kv_head < self.n_kv_h,
        ensures
            r@.len() == self.dqkv,
            forall|d: int|
                0 <= d < self.dqkv ==> #[trigger] r@[d] == kv@[self.kv_at(
                    k_pos as int,
                    kv_head as int,
                    d,
                )],
    {
        if self.dqkv == 0 {
            return slice_subrange(kv, 0, 0);
        }
        proof {
            self.lemma_kv_at(k_pos as int, kv_head as int, 0);
            self.lemma_kv_at(k_pos as int, kv_head as int, self.dqkv - 1);
        }
        let start: usize = self.kv_index(k_pos, kv_head, 0);
        slice_subrange(kv, start, start + self.dqkv)
    }

    /// The scores of query position `q_pos` for the query head (`kv_head`,
    /// `group`) against every key position, out of a score buffer.
    pub fn score_row<'a, T>(&self, scores: &'a [T], kv_head: usize, group: usize, q_pos: usize) -> (r:
        &'a [T])
        requires
            self.wf(),
            scores@.len() == self.score_size(),
            0 <= kv_head < self.n_kv_h,
            0 <= group < self.n_groups,
            0 <= q_pos < self.seq_len,
        ensures
            r@.len() == self.total_seq_len,
            forall|k_pos: int|
                0 <= k_pos < self.total_seq_len ==> #[trigger] r@[k_pos] == scores@[self.score_at(
                    kv_head as int,
                    group as int,
                    q_pos as int,
                    k_pos,
                )],
    {
        proof {
            self.lemma_score_at(kv_head as int, group as int, q_pos as int, 0);
            self.lemma_score_at(
                kv_head as int,
                group as int,
                q_pos as int,
                self.total_seq_len - 1,
            );
        }
        let start: usize = self.score_index(kv_head, group, q_pos, 0);
        slice_subrange(scores, start, start + self.total_seq_len)
    }

    /// Number of keys that the query at `q_pos` may attend to: the keys
    /// before the new positions, and the new ones up to its own.
    pub fn visible_keys(&self, q_pos: usize) -> (r: usize)
        requires
            self.seq_len <= self.total_seq_len,
            q_pos < self.seq_len,
        ensures
            r == self.total_seq_len - self.seq_len + q_pos + 1,
            0 < r <= self.total_seq_len,
            forall|k_pos: int| 0 <= k_pos ==> (self.visible(q_pos as int, k_pos) <==> k_pos < r),
    {
        self.total_seq_len - self.seq_len + q_pos + 1
    }

    /// Applies the causal mask to a buffer of scores: each score of a key
    /// that its query may not attend to becomes `blank`, and every other score
    /// stays as it is.
    pub fn mask_scores<T: Copy>(&self, scores: &mut Tensor<T>, blank: T)
        requires
            self.wf(),
            old(scores)@.len() == self.score_size(),
        ensures
            final(scores).dims() == old(scores).dims(),
            final(scores)@.len() == old(scores)@.len(),
            forall|index: int|
                0 <= index < self.score_size() ==> #[trigger] final(scores)@[index] == (if self.blanked(
                    index,
                ) {
                    blank
                } else {
                    old(scores)@[index]
                }),
            forall|kv_head: int, group: int, q_pos: int, k_pos: int|
                self.score_coords(kv_head, group, q_pos, k_pos) ==> final(scores)@[#[trigger] self.score_at(
                    kv_head,
                    group,
                    q_pos,
                    k_pos,
                )] == (if self.visible(q_pos, k_pos) {
                    old(scores)@[self.score_at(kv_head, group, q_pos, k_pos)]
                } else {
                    blank
                }),
    {
        let size: usize = scores.size();
        let mut index: usize = 0;
        while index < size
            invariant
                self.wf(),
                size == self.score_size(),
                index <= size,
                scores.dims() == old(scores).dims(),
                scores@.len() == size,
                old(scores)@.len() == size,
                forall|i: int|
                    0 <= i < index ==> #[trigger] scores@[i] == (if self.blanked(i) {
                        blank
                    } else {
                        old(scores)@[i]
                    }),
                forall|i: int| index <= i < size ==> #[trigger] scores@[i] == old(scores)@[i],
            decreases size - index,
        {
            proof {
                if self.total_seq_len == 0 || self.seq_len == 0 {
                    assert(self.heads() * self.seq_len * self.total_seq_len == 0)
                        by (nonlinear_arith)
                        requires
                            self.total_seq_len == 0 || self.seq_len == 0,
                    ;
                }
            }
            let k_pos: usize = index % self.total_seq_len;
            let q_pos: usize = (index / self.total_seq_len) % self.seq_len;
            if k_pos > q_pos + (self.total_seq_len - self.seq_len) {
                scores.set(index, blank);
            }
            index += 1;
        }
        proof {
            assert forall|kv_head: int, group: int, q_pos: int, k_pos: int|
                self.score_coords(kv_head, group, q_pos, k_pos) implies scores@[#[trigger] self.score_at(
                kv_head,
                group,
                q_pos,
                k_pos,
            )] == (if self.visible(q_pos, k_pos) {
                old(scores)@[self.score_at(kv_head, group, q_pos, k_pos)]
            } else {
                blank
            }) by {
                self.lemma_score_at(kv_head, group, q_pos, k_pos);
                let at = self.score_at(kv_head, group, q_pos, k_pos);
                assert(scores@[at] == (if self.blanked(at) {
                    blank
                } else {
                    old(scores)@[at]
                }));
            }
        }
    }
}

} // verus!
