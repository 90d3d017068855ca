//! The model: its dimensions, its weights, and what a forward pass needs
//! before any arithmetic is done: room in the cache, work buffers of the right
//! shapes, and the embeddings of the input tokens.

use crate::attention::AttentionShape;
use crate::config::{dims_of, LlamaConfigJson, ModelDims};
use crate::container::{describe, open_container, parsed_container};
use crate::generate::{GenState, Generation};
use crate::header::{check_header, header_is_plain};
use crate::kvcache::{KVCache, Region};
use crate::operators::{cell, gather, ids_in_table, rows_exist};
use crate::params::{load_fault, LLamaParams, LoadError, LoadFault};
use crate::shape::{lemma_size_of_four, lemma_size_of_pair, lemma_size_of_single};
use crate::tensor::{Tensor, TensorSlice};
use vstd::prelude::*;

verus! {

/// A loaded model.
pub struct Llama<T> {
    dims: ModelDims,
    eps: T,
    rope_theta: T,
    params: LLamaParams<T>,
    bos_token_id: u32,
    eos_token_id: u32,
}

/// What one forward pass works with: the positions it covers and the work
/// buffers, which are overwritten layer after layer.
pub struct Forward<T> {
    /// Number of positions that were in the cache before the pass.
    pub past_seq_len: usize,
    /// Number of input tokens.
    pub seq_len: usize,
    /// Number of positions in the cache with those of the pass.
    pub total_seq_len: usize,
    /// The rows of the cache that the pass has taken into use and is to
    /// write its keys and values to.
    pub fresh: Region,
    /// The sizes of the attention of the pass.
    pub attention: AttentionShape,
    /// The residual stream, `(seq_len, d)`; it starts as the embeddings of
    /// the input tokens.
    pub residual: Tensor<T>,
    /// Normalized hidden states and attention output, `(seq_len, d)`.
    pub hidden_states: Tensor<T>,
    /// Queries, `(seq_len, n_q_h * dqkv)`.
    pub q_buf: Tensor<T>,
    /// Attention scores, `(n_kv_h, n_groups, seq_len, total_seq_len)`.
    pub att_scores: Tensor<T>,
    /// Gate branch of the feed-forward block, `(seq_len, di)`.
    pub gate_buf: Tensor<T>,
    /// Up branch of the feed-forward block, `(seq_len, di)`.
    pub up_buf: Tensor<T>,
}

/// The buffers of a pass over `seq_len` of `total` positions can be counted,
/// where the model's buffers for its longest sequence can.
pub proof fn lemma_pass_sizes(dims: ModelDims, seq_len: usize, total: usize)
    requires
        dims.wf(),
        1 <= seq_len <= total <= dims.max_seq_len,
    ensures
        seq_len * dims.d <= usize::MAX,
        seq_len * dims.di <= usize::MAX,
        seq_len * (dims.n_q_h * dims.dqkv) <= usize::MAX,
        dims.max_seq_len * (dims.n_kv_h * dims.dqkv) <= usize::MAX,
        dims.n_kv_h * dims.groups() * seq_len * total <= usize::MAX,
        (AttentionShape {
            n_kv_h: dims.n_kv_h,
            n_groups: dims.groups() as usize,
            seq_len,
            total_seq_len: total,
            dqkv: dims.dqkv,
        }).wf(),
{
    dims.lemma_widths();
    let max = dims.max_seq_len as int;
    let q = dims.n_q_h as int;
    let kv = dims.n_kv_h as int;
    let g = dims.groups() as int;
    let w = dims.dqkv as int;
    let s = seq_len as int;
    let t = total as int;
    assert(s * dims.d <= max * dims.d && t * dims.d <= max * dims.d) by (nonlinear_arith)
        requires
            0 <= s <= t <= max,
            dims.d >= 0,
    ;
    assert(s * dims.di <= max * dims.di) by (nonlinear_arith)
        requires
            0 <= s <= max,
            dims.di >= 0,
    ;
    assert(s * (q * w) <= s * dims.d && t * (kv * w) <= t * dims.d && max * (kv * w) <= max
        * dims.d) by (nonlinear_arith)
        requires
            0 <= s,
            0 <= t,
            0 <= max,
            0 <= kv * w <= q * w <= dims.d,
    ;
    assert(q * s <= q * max && q * s * t <= q * max * max && q * max <= q * max * max)
        by (nonlinear_arith)
        requires
            1 <= s <= t <= max,
            q >= 0,
    ;
    assert(kv * g * s * t == q * s * t) by (nonlinear_arith)
        requires
            kv * g == q,
    ;
    let shape = AttentionShape {
        n_kv_h: dims.n_kv_h,
        n_groups: dims.groups() as usize,
        seq_len,
        total_seq_len: total,
        dqkv: dims.dqkv,
    };
    assert(g <= q) by (nonlinear_arith)
        requires
            kv * g == q,
            kv >= 1,
            g >= 0,
    ;
    assert(shape.heads() == q);
    assert(shape.q_width() == q * w);
    assert(shape.kv_width() == kv * w);
    assert(shape.heads() * shape.seq_len == q * s);
    assert(shape.score_size() == q * s * t);
}

impl<T: Copy> Llama<T> {
    /// The dimensions of the model.
    pub closed spec fn dims(&self) -> ModelDims {
        self.dims
    }

    /// The weights of the model.
    pub closed spec fn weights(&self) -> LLamaParams<T> {
        self.params
    }

    /// The normalization epsilon.
    pub closed spec fn spec_eps(&self) -> T {
        self.eps
    }

    /// The rotary base.
    pub closed spec fn spec_rope_theta(&self) -> T {
        self.rope_theta
    }

    /// The beginning-of-sequence token.
    pub closed spec fn bos(&self) -> u32 {
        self.bos_token_id
    }

    /// The end-of-sequence token.
    pub closed spec fn eos(&self) -> u32 {
        self.eos_token_id
    }

    /// The dimensions are usable and every weight has the shape that they
    /// ask for.
    pub open spec fn wf(&self) -> bool {
        &&& self.dims().wf()
        &&& self.weights().fits(self.dims())
    }

    /// A cache is one of this model: it has the model's layers, room for the
    /// model's longest sequence, and rows of one vector for each key/value
    /// head.
    pub open spec fn owns(&self, cache: &KVCache<T>) -> bool {
        &&& cache.wf()
        &&& cache.layers() == self.dims().n_layers
        &&& cache.capacity() == self.dims().max_seq_len
        &&& cache.width() == self.dims().n_kv_h * self.dims().dqkv
    }

    /// A forward pass over `input` can be run against `cache`: there is at
    /// least one token, every token is in the vocabulary, and the cache has
    /// room for the new positions.
    pub open spec fn accepts(&self, input: Seq<u32>, cache: &KVCache<T>) -> bool {
        &&& self.owns(cache)
        &&& input.len() >= 1
        &&& cache.spec_len() + input.len() <= cache.capacity()
        &&& rows_exist(input, self.dims().vocab as nat)
    }

    /// Loads a model from its configuration and the bytes of its weight
    /// container. The container is read first, then the configuration is
    /// checked, then the weights are taken out in their reading order; the
    /// first fault is reported. A container whose header is not plain is
    /// refused unread. `decode` turns each stored 32-bit word into an
    /// element.
    pub fn from_safetensors<F: Fn(u32) -> T>(
        config: &LlamaConfigJson<T>,
        model_file: &[u8],
        decode: &F,
    ) -> (r: Result<Self, LoadError>)
        requires
            forall|w: u32| call_requires(decode, (w,)),
        ensures
            match r {
                Ok(model) => {
                    &&& header_is_plain(model_file@)
                    &&& parsed_container(model_file@) matches Some(contents)
                    &&& load_fault(contents, config) is None
                    &&& model.wf()
                    &&& model.dims() == dims_of(config)
                    &&& model.weights().holds(contents, dims_of(config), decode)
                    &&& model.spec_eps() == config.rms_norm_eps
                    &&& model.spec_rope_theta() == config.rope_theta
                    &&& model.bos() == config.bos_token_id
                    &&& model.eos() == config.eos_token_id
                },
                Err(error) => if header_is_plain(model_file@) {
                    match parsed_container(model_file@) {
                        Some(contents) => load_fault(contents, config) == Some(error@),
                        None => error@ == LoadFault::Container,
                    }
                } else {
                    error@ == LoadFault::Container
                },
            },
    {
        if !check_header(model_file) {
            return Err(
                LoadError::Container(String::from_str("a number in the header is too large")),
            );
        }
        let container = match open_container(model_file) {
            Ok(container) => container,
            Err(error) => {
                return Err(LoadError::Container(describe(&error)));
            },
        };
        let dims: ModelDims = match ModelDims::from_config(config) {
            Ok(dims) => dims,
            Err(fault) => {
                return Err(LoadError::Config(fault));
            },
        };
        let params = LLamaParams::load(&container, &dims, decode)?;
        proof {
            params.lemma_holds_fits(parsed_container(model_file@).unwrap(), dims, decode);
        }
        Ok(
            Llama {
                dims,
                eps: config.rms_norm_eps,
                rope_theta: config.rope_theta,
                params,
                bos_token_id: config.bos_token_id,
                eos_token_id: config.eos_token_id,
            },
        )
    }

    /// The dimensions of the model.
    pub fn dimensions(&self) -> (r: ModelDims)
        ensures
            r == self.dims(),
    {
        self.dims
    }

    /// Vocabulary size.
    pub fn vocab(&self) -> (r: usize)
        ensures
            r == self.dims().vocab,
    {
        self.dims.vocab
    }

    /// Number of decoder layers.
    pub fn n_layers(&self) -> (r: usize)
        ensures
            r == self.dims().n_layers,
    {
        self.dims.n_layers
    }

    /// Number of query heads.
    pub fn n_q_h(&self) -> (r: usize)
        ensures
            r == self.dims().n_q_h,
    {
        self.dims.n_q_h
    }

    /// Number of key/value heads.
    pub fn n_kv_h(&self) -> (r: usize)
        ensures
            r == self.dims().n_kv_h,
    {
        self.dims.n_kv_h
    }

    /// Dimension of the hidden states.
    pub fn d(&self) -> (r: usize)
        ensures
            r == self.dims().d,
    {
        self.dims.d
    }

    /// Length of a single query, key or value vector.
    pub fn dqkv(&self) -> (r: usize)
        ensures
            r == self.dims().dqkv,
    {
        self.dims.dqkv
    }

    /// Dimension of the intermediate feed-forward states.
    pub fn di(&self) -> (r: usize)
        ensures
            r == self.dims().di,
    {
        self.dims.di
    }

    /// Longest sequence that the model handles.
    pub fn max_seq_len(&self) -> (r: usize)
        ensures
            r == self.dims().max_seq_len,
    {
        self.dims.max_seq_len
    }

    /// The normalization epsilon.
    pub fn eps(&self) -> (r: T)
        ensures
            r == self.spec_eps(),
    {
        self.eps
    }

    /// The rotary base.
    pub fn rope_theta(&self) -> (r: T)
        ensures
            r == self.spec_rope_theta(),
    {
        self.rope_theta
    }

    /// The beginning-of-sequence token.
    pub fn bos_token_id(&self) -> (r: u32)
        ensures
            r == self.bos(),
    {
        self.bos_token_id
    }

    /// The end-of-sequence token.
    pub fn eos_token_id(&self) -> (r: u32)
        ensures
            r == self.eos(),
    {
        self.eos_token_id
    }

    /// The weights of the model.
    pub fn params(&self) -> (r: &LLamaParams<T>)
        ensures
            *r == self.weights(),
    {
        &self.params
    }

    /// An empty cache for one conversation with this model.
    pub fn new_cache(&self) -> (r: KVCache<T>) where T: Default
        requires
            self.wf(),
        ensures
            self.owns(&r),
            r.spec_len() == 0,
    {
        proof {
            self.dims.lemma_widths();
            assert(self.dims.max_seq_len * (self.dims.n_kv_h * self.dims.dqkv)
                <= self.dims.max_seq_len * self.dims.d) by (nonlinear_arith)
                requires
                    0 <= self.dims.n_kv_h * self.dims.dqkv <= self.dims.d,
                    0 <= self.dims.max_seq_len,
            ;
        }
        KVCache::new(
            self.dims.n_layers,
            self.dims.max_seq_len,
            self.dims.n_kv_h * self.dims.dqkv,
            0,
        )
    }

    /// Whether a forward pass over `input` can be run against `cache`.
    pub fn can_forward(&self, input: &Tensor<u32>, cache: &KVCache<T>) -> (r: bool)
        requires
            self.wf(),
            cache.wf(),
        ensures
            r == self.accepts(input@, cache),
    {
        proof {
            self.dims.lemma_widths();
            cache.lemma_sizes();
        }
        cache.n_layers() == self.dims.n_layers && cache.max_len() == self.dims.max_seq_len
            && cache.row_width() == self.dims.n_kv_h * self.dims.dqkv && input.size() >= 1
            && input.size() <= cache.max_len() - cache.len() && ids_in_table(
            input,
            self.dims.vocab,
        )
    }

    /// Opens a forward pass over `input`: takes the new positions into use in
    /// the cache, makes the work buffers, and looks up the embeddings of the
    /// input tokens into the residual stream. Nothing that the cache held
    /// changes.
    pub fn begin_forward(&self, input: &Tensor<u32>, cache: &mut KVCache<T>) -> (r: Forward<T>) where
        T: Default,

        requires
            self.wf(),
            self.accepts(input@, old(cache)),
        ensures
            self.owns(final(cache)),
            final(cache).spec_len() == old(cache).spec_len() + input@.len(),
            forall|l: int|
                0 <= l < old(cache).layers() ==> final(cache).keys(l) == old(cache).keys(l)
                    && final(cache).values(l) == old(cache).values(l),
            r.past_seq_len == old(cache).spec_len(),
            r.seq_len == input@.len(),
            r.total_seq_len == final(cache).spec_len(),
            r.fresh.start == r.past_seq_len,
            r.fresh.rows == r.seq_len,
            final(cache).holds(r.fresh),
            r.attention == (AttentionShape {
                n_kv_h: self.dims().n_kv_h,
                n_groups: self.dims().groups() as usize,
                seq_len: r.seq_len,
                total_seq_len: r.total_seq_len,
                dqkv: self.dims().dqkv,
            }),
            r.attention.wf(),
            r.wf(self.dims()),
            forall|i: int, j: int|
                0 <= i < input@.len() && 0 <= j < self.dims().d ==> #[trigger] cell(
                    r.residual@,
                    self.dims().d as int,
                    i,
                    j,
                ) == cell(self.weights().embedding_table@, self.dims().d as int, input@[i] as int, j),
    {
        let seq_len: usize = input.size();
        let past_seq_len: usize = cache.len();
        proof {
            cache.lemma_sizes();
        }
        let total_seq_len: usize = past_seq_len + seq_len;
        proof {
            self.dims.lemma_widths();
            lemma_pass_sizes(self.dims, seq_len, total_seq_len);
        }
        let region = cache.increment(seq_len);
        let n_groups: usize = self.dims.n_q_h / self.dims.n_kv_h;
        let d: usize = self.dims.d;
        let di: usize = self.dims.di;
        let q_width: usize = self.dims.n_q_h * self.dims.dqkv;
        let row_shape: Vec<usize> = vec![seq_len, d];
        let q_shape: Vec<usize> = vec![seq_len, q_width];
        let score_shape: Vec<usize> = vec![self.dims.n_kv_h, n_groups, seq_len, total_seq_len];
        let wide_shape: Vec<usize> = vec![seq_len, di];
        proof {
            assert(row_shape@ =~= seq![seq_len, d]);
            assert(q_shape@ =~= seq![seq_len, q_width]);
            assert(score_shape@ =~= seq![self.dims.n_kv_h, n_groups, seq_len, total_seq_len]);
            assert(wide_shape@ =~= seq![seq_len, di]);
            lemma_size_of_pair(seq_len, d);
            lemma_size_of_pair(seq_len, q_width);
            lemma_size_of_pair(seq_len, di);
            lemma_size_of_four(self.dims.n_kv_h, n_groups, seq_len, total_seq_len);
        }
        let mut residual = Tensor::<T>::default(&row_shape);
        let hidden_states = Tensor::<T>::default(&row_shape);
        let q_buf = Tensor::<T>::default(&q_shape);
        let att_scores = Tensor::<T>::default(&score_shape);
        let gate_buf = Tensor::<T>::default(&wide_shape);
        let up_buf = Tensor::<T>::default(&wide_shape);
        proof {
            assert(self.params.embedding_table.dims() =~= seq![self.dims.vocab, d]);
        }
        gather(&mut residual, input, &self.params.embedding_table);
        Forward {
            past_seq_len,
            seq_len,
            total_seq_len,
            fresh: region,
            attention: AttentionShape {
                n_kv_h: self.dims.n_kv_h,
                n_groups,
                seq_len,
                total_seq_len,
                dqkv: self.dims.dqkv,
            },
            residual,
            hidden_states,
            q_buf,
            att_scores,
            gate_buf,
            up_buf,
        }
    }

    /// Starts a generation run over a prompt, with the model's
    /// beginning-of-sequence and end-of-sequence tokens.
    pub fn start_generation(&self, token_ids: &[u32], max_len: usize) -> (r: Generation)
        ensures
            r@ == GenState::start(token_ids@, self.bos(), self.eos(), max_len as nat),
            r@.wf(),
    {
        Generation::start(token_ids, self.bos_token_id, self.eos_token_id, max_len)
    }
}

impl<T: Copy> Forward<T> {
    /// The work buffers have the shapes of a pass of a model of the given
    /// dimensions.
    pub open spec fn wf(&self, dims: ModelDims) -> bool {
        &&& self.seq_len >= 1
        &&& self.total_seq_len == self.past_seq_len + self.seq_len
        &&& self.residual.dims() == seq![self.seq_len, dims.d]
        &&& self.hidden_states.dims() == seq![self.seq_len, dims.d]
        &&& self.q_buf.dims() == seq![self.seq_len, (dims.n_q_h * dims.dqkv) as usize]
        &&& self.att_scores.dims() == seq![
            dims.n_kv_h,
            dims.groups() as usize,
            self.seq_len,
            self.total_seq_len,
        ]
        &&& self.gate_buf.dims() == seq![self.seq_len, dims.di]
        &&& self.up_buf.dims() == seq![self.seq_len, dims.di]
        &&& self.residual@.len() == self.seq_len * dims.d
        &&& self.hidden_states@.len() == self.seq_len * dims.d
        &&& self.q_buf@.len() == self.seq_len * (dims.n_q_h * dims.dqkv)
        &&& self.att_scores@.len() == dims.n_kv_h * dims.groups() * self.seq_len
            * self.total_seq_len
        &&& self.gate_buf@.len() == self.seq_len * dims.di
        &&& self.up_buf@.len() == self.seq_len * dims.di
    }

    /// The residual stream at the last position of the pass, from which the
    /// logits are computed.
    pub fn last_residual(&self, d: usize) -> (r: TensorSlice<'_, T>)
        requires
            self.seq_len >= 1,
            self.residual@.len() == self.seq_len * d,
        ensures
            r@ == self.residual@.subrange((self.seq_len - 1) * d, self.seq_len * d),
            r.dims() == seq![d],
            r.wf(),
    {
        proof {
            lemma_size_of_single(d);
            assert((self.seq_len - 1) * d + d == self.seq_len * d) by (nonlinear_arith);
            assert(0 <= (self.seq_len - 1) * d) by (nonlinear_arith)
                requires
                    self.seq_len >= 1,
                    d >= 0,
            ;
        }
        let total: usize = self.residual.size();
        let shape: Vec<usize> = vec![d];
        assert(shape@ =~= seq![d]);
        self.residual.slice((self.seq_len - 1) * d, &shape)
    }
}

} // verus!
