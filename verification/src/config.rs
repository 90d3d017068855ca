//! The model configuration as it is read from a model directory, and the
//! dimensions that the engine derives from it.

use vstd::prelude::*;

verus! {

/// The configuration record of a model. `T` is the type of its two numeric
/// settings, the normalization epsilon and the rotary base.
pub struct LlamaConfigJson<T> {
    pub bos_token_id: u32,
    pub eos_token_id: u32,
    pub hidden_size: usize,
    pub intermediate_size: usize,
    pub max_position_embeddings: usize,
    pub num_attention_heads: usize,
    pub num_hidden_layers: usize,
    pub num_key_value_heads: usize,
    pub vocab_size: usize,
    pub rms_norm_eps: T,
    pub rope_theta: T,
}

/// Why a configuration cannot be used.
#[derive(Clone, Copy, Debug, PartialEq, Eq, Structural)]
pub enum ConfigFault {
    /// `num_attention_heads` is zero.
    NoAttentionHeads,
    /// `num_key_value_heads` is zero.
    NoKeyValueHeads,
    /// The query heads cannot be shared out evenly among the key/value heads.
    UnevenGroups,
    /// A buffer for the longest sequence would have more elements than a
    /// machine word can count.
    TooLarge,
}

impl ConfigFault {
    /// What is wrong, in words.
    pub open spec fn text(self) -> Seq<char> {
        match self {
            ConfigFault::NoAttentionHeads => "num_attention_heads is zero"@,
            ConfigFault::NoKeyValueHeads => "num_key_value_heads is zero"@,
            ConfigFault::UnevenGroups =>
                "num_attention_heads is no multiple of num_key_value_heads"@,
            ConfigFault::TooLarge => "max_position_embeddings is too large for the other sizes"@,
        }
    }

    /// What is wrong, in words.
    pub fn message(self) -> (r: &'static str)
        ensures
            r@ == self.text(),
    {
        match self {
            ConfigFault::NoAttentionHeads => "num_attention_heads is zero",
            ConfigFault::NoKeyValueHeads => "num_key_value_heads is zero",
            ConfigFault::UnevenGroups => "num_attention_heads is no multiple of num_key_value_heads",
            ConfigFault::TooLarge => "max_position_embeddings is too large for the other sizes",
        }
    }
}

/// The dimensions of a model.
#[derive(Clone, Copy, Debug, PartialEq, Eq, Structural)]
pub struct ModelDims {
    /// Vocabulary size.
    pub vocab: usize,
    /// Number of decoder layers.
    pub n_layers: usize,
    /// Number of query heads.
    pub n_q_h: usize,
    /// Number of key/value heads.
    pub n_kv_h: usize,
    /// Dimension of the hidden states.
    pub d: usize,
    /// Length of a single query, key or value vector.
    pub dqkv: usize,
    /// Dimension of the intermediate feed-forward states.
    pub di: usize,
    /// Longest sequence that the model handles.
    pub max_seq_len: usize,
}

impl ModelDims {
    /// Number of query heads that share one key/value head.
    pub open spec fn groups(&self) -> nat {
        (self.n_q_h / self.n_kv_h) as nat
    }

    /// The heads are grouped evenly, the head dimension is the hidden
    /// dimension shared out among the query heads, and every buffer for the
    /// longest sequence can be counted in a machine word.
    pub open spec fn wf(&self) -> bool {
        &&& self.n_q_h > 0
        &&& self.n_kv_h > 0
        &&& self.n_q_h % self.n_kv_h == 0
        &&& self.dqkv == self.d / self.n_q_h
        &&& self.max_seq_len * self.d <= usize::MAX
        &&& self.max_seq_len * self.di <= usize::MAX
        &&& self.n_q_h * self.max_seq_len * self.max_seq_len <= usize::MAX
    }

    /// The widths of the query rows and of the key/value rows are at most the
    /// hidden dimension, and the query heads are the key/value heads times the
    /// group count.
    pub proof fn lemma_widths(&self)
        requires
            self.wf(),
        ensures
            self.n_q_h * self.dqkv <= self.d,
            self.n_kv_h * self.dqkv <= self.n_q_h * self.dqkv,
            self.n_kv_h * self.groups() == self.n_q_h,
            self.groups() >= 1,
    {
        let q = self.n_q_h as int;
        let kv = self.n_kv_h as int;
        let d = self.d as int;
        assert(q * (d / q) <= d) by (nonlinear_arith)
            requires
                q > 0,
                d >= 0,
        ;
        assert(kv * (q / kv) == q && q / kv >= 1 && kv <= q) by (nonlinear_arith)
            requires
                kv > 0,
                q > 0,
                q % kv == 0,
        ;
        assert(kv * self.dqkv <= q * self.dqkv) by (nonlinear_arith)
            requires
                kv <= q,
                self.dqkv >= 0,
        ;
    }

    /// Derives the dimensions from a configuration, or says why it cannot be
    /// used.
    pub fn from_config<T>(config: &LlamaConfigJson<T>) -> (r: Result<ModelDims, ConfigFault>)
        ensures
            match r {
                Ok(dims) => config_fault(config) is None && dims == dims_of(config) && dims.wf(),
                Err(fault) => config_fault(config) == Some(fault),
            },
    {
        if config.num_attention_heads == 0 {
            return Err(ConfigFault::NoAttentionHeads);
        }
        if config.num_key_value_heads == 0 {
            return Err(ConfigFault::NoKeyValueHeads);
        }
        if config.num_attention_heads % config.num_key_value_heads != 0 {
            return Err(ConfigFault::UnevenGroups);
        }
        let max: usize = config.max_position_embeddings;
        if max.checked_mul(config.hidden_size).is_none() {
            return Err(ConfigFault::TooLarge);
        }
        if max.checked_mul(config.intermediate_size).is_none() {
            return Err(ConfigFault::TooLarge);
        }
        match config.num_attention_heads.checked_mul(max) {
            None => {
                proof {
                    lemma_scores_too_large(config.num_attention_heads, max);
                }
                return Err(ConfigFault::TooLarge);
            },
            Some(rows) => {
                if rows.checked_mul(max).is_none() {
                    return Err(ConfigFault::TooLarge);
                }
            },
        }
        Ok(
            ModelDims {
                vocab: config.vocab_size,
                n_layers: config.num_hidden_layers,
                n_q_h: config.num_attention_heads,
                n_kv_h: config.num_key_value_heads,
                d: config.hidden_size,
                dqkv: config.hidden_size / config.num_attention_heads,
                di: config.intermediate_size,
                max_seq_len: config.max_position_embeddings,
            },
        )
    }
}

/// Where the heads times the longest sequence cannot be counted, neither can
/// the attention scores.
proof fn lemma_scores_too_large(heads: usize, max: usize)
    requires
        heads * max > usize::MAX,
    ensures
        heads * max * max > usize::MAX,
{
    assert(heads * max * max >= heads * max) by (nonlinear_arith)
        requires
            heads * max > 0,
            max >= 0,
            heads >= 0,
    ;
}

/// The dimensions that a configuration asks for.
pub open spec fn dims_of<T>(config: &LlamaConfigJson<T>) -> ModelDims {
    ModelDims {
        vocab: config.vocab_size,
        n_layers: config.num_hidden_layers,
        n_q_h: config.num_attention_heads,
        n_kv_h: config.num_key_value_heads,
        d: config.hidden_size,
        dqkv: (config.hidden_size / config.num_attention_heads) as usize,
        di: config.intermediate_size,
        max_seq_len: config.max_position_embeddings,
    }
}

/// The first reason, if any, why a configuration cannot be used.
pub open spec fn config_fault<T>(config: &LlamaConfigJson<T>) -> Option<ConfigFault> {
    let max = config.max_position_embeddings;
    if config.num_attention_heads == 0 {
        Some(ConfigFault::NoAttentionHeads)
    } else if config.num_key_value_heads == 0 {
        Some(ConfigFault::NoKeyValueHeads)
    } else if config.num_attention_heads % config.num_key_value_heads != 0 {
        Some(ConfigFault::UnevenGroups)
    } else if max * config.hidden_size > usize::MAX || max * config.intermediate_size > usize::MAX
        || config.num_attention_heads * max * max > usize::MAX {
        Some(ConfigFault::TooLarge)
    } else {
        None
    }
}

} // verus!
