use llama_engine::config::{ConfigFault, LlamaConfigJson, ModelDims};
use llama_engine::header::{check_header, numbers_fit, MAX_HEADER_SIZE};
use llama_engine::model::Llama;
use llama_engine::params::{
    decimal_string, decode_words, layer_tensor_name, load_group, load_tensor, LLamaParams, LoadError,
    WeightKind,
};
use llama_engine::tensor::Tensor;
use safetensors::tensor::{Dtype, TensorView};
use safetensors::SafeTensors;

fn config(layers: usize) -> LlamaConfigJson<f32> {
    LlamaConfigJson {
        bos_token_id: 1,
        eos_token_id: 2,
        hidden_size: 8,
        intermediate_size: 6,
        max_position_embeddings: 16,
        num_attention_heads: 4,
        num_hidden_layers: layers,
        num_key_value_heads: 2,
        vocab_size: 5,
        rms_norm_eps: 1e-6,
        rope_theta: 10000.0,
    }
}

fn kinds() -> Vec<(WeightKind, Vec<usize>)> {
    vec![
        (WeightKind::Wq, vec![8, 8]),
        (WeightKind::Wk, vec![4, 8]),
        (WeightKind::Wv, vec![4, 8]),
        (WeightKind::Wo, vec![8, 8]),
        (WeightKind::WUp, vec![6, 8]),
        (WeightKind::WGate, vec![6, 8]),
        (WeightKind::WDown, vec![8, 6]),
        (WeightKind::AttNorm, vec![8]),
        (WeightKind::FfnNorm, vec![8]),
    ]
}

/// The value that the test containers store at element `i` of the tensor
/// with index `t`.
fn value(t: usize, i: usize) -> f32 {
    t as f32 + i as f32 / 1024.0
}

fn entries(layers: usize) -> Vec<(String, Vec<usize>, Vec<f32>)> {
    let mut out: Vec<(String, Vec<usize>, Vec<f32>)> = Vec::new();
    let mut t: usize = 0;
    for (kind, shape) in kinds() {
        for layer in 0..layers {
            let n: usize = shape.iter().product();
            let data: Vec<f32> = (0..n).map(|i| value(t, i)).collect();
            out.push((format!("model.layers.{}.{}", layer, kind.suffix()), shape.clone(), data));
            t += 1;
        }
    }
    out.push(("model.norm.weight".to_string(), vec![8], (0..8).map(|i| value(t, i)).collect()));
    out.push(("lm_head.weight".to_string(), vec![5, 8], (0..40).map(|i| value(t + 1, i)).collect()));
    out
}

fn bytes_of(data: &[f32]) -> Vec<u8> {
    data.iter().flat_map(|x| x.to_be_bytes()).collect()
}

fn container(entries: &[(String, Vec<usize>, Vec<f32>)]) -> Vec<u8> {
    let raw: Vec<Vec<u8>> = entries.iter().map(|e| bytes_of(&e.2)).collect();
    let views: Vec<(String, TensorView)> = entries
        .iter()
        .zip(raw.iter())
        .map(|(e, bytes)| (e.0.clone(), TensorView::new(Dtype::F32, e.1.clone(), bytes).unwrap()))
        .collect();
    safetensors::serialize(views, &None).unwrap()
}

fn float_eq(x: &f32, y: &f32, rel: f32) -> bool {
    (x - y).abs() <= rel * (x.abs() + y.abs()) / 2.0
}

fn kind_of(error: &LoadError) -> String {
    match error {
        LoadError::Config(fault) => format!("config {:?}", fault),
        LoadError::Container(_) => "container".to_string(),
        LoadError::MissingTensor(name) => format!("missing {}", name),
        LoadError::ShapeMismatch(name) => format!("shape {}", name),
        LoadError::ElementWidth(name) => format!("width {}", name),
    }
}

#[test]
fn dims_from_config() {
    let dims = ModelDims::from_config(&config(2)).unwrap();
    assert_eq!(
        dims,
        ModelDims { vocab: 5, n_layers: 2, n_q_h: 4, n_kv_h: 2, d: 8, dqkv: 2, di: 6, max_seq_len: 16 }
    );
}

#[test]
fn config_faults() {
    let mut c = config(2);
    c.num_attention_heads = 0;
    assert_eq!(ModelDims::from_config(&c), Err(ConfigFault::NoAttentionHeads));
    c.num_key_value_heads = 0;
    assert_eq!(ModelDims::from_config(&c), Err(ConfigFault::NoAttentionHeads));
    let mut c = config(2);
    c.num_key_value_heads = 0;
    assert_eq!(ModelDims::from_config(&c), Err(ConfigFault::NoKeyValueHeads));
    let mut c = config(2);
    c.num_key_value_heads = 3;
    assert_eq!(ModelDims::from_config(&c), Err(ConfigFault::UnevenGroups));
    let mut c = config(2);
    c.max_position_embeddings = usize::MAX;
    assert_eq!(ModelDims::from_config(&c), Err(ConfigFault::TooLarge));
    let mut c = config(2);
    c.intermediate_size = usize::MAX / 2;
    assert_eq!(ModelDims::from_config(&c), Err(ConfigFault::TooLarge));
    let mut c = config(2);
    c.max_position_embeddings = 1 << (usize::BITS / 2);
    c.hidden_size = 1;
    c.intermediate_size = 1;
    c.num_attention_heads = 1;
    c.num_key_value_heads = 1;
    assert_eq!(ModelDims::from_config(&c), Err(ConfigFault::TooLarge));
}

#[test]
fn expected_shapes() {
    let dims = ModelDims::from_config(&config(2)).unwrap();
    for (kind, shape) in kinds() {
        assert_eq!(kind.expected_shape(&dims), shape);
    }
}

#[test]
fn decimal_strings() {
    assert_eq!(decimal_string(0), "0");
    assert_eq!(decimal_string(7), "7");
    assert_eq!(decimal_string(10), "10");
    assert_eq!(decimal_string(109), "109");
    assert_eq!(decimal_string(1234567890), "1234567890");
    assert_eq!(decimal_string(usize::MAX), format!("{}", usize::MAX));
}

#[test]
fn tensor_names() {
    assert_eq!(layer_tensor_name(0, WeightKind::Wq), "model.layers.0.self_attn.q_proj.weight");
    assert_eq!(layer_tensor_name(1, WeightKind::Wk), "model.layers.1.self_attn.k_proj.weight");
    assert_eq!(layer_tensor_name(2, WeightKind::Wv), "model.layers.2.self_attn.v_proj.weight");
    assert_eq!(layer_tensor_name(3, WeightKind::Wo), "model.layers.3.self_attn.o_proj.weight");
    assert_eq!(layer_tensor_name(12, WeightKind::WUp), "model.layers.12.mlp.up_proj.weight");
    assert_eq!(layer_tensor_name(0, WeightKind::WGate), "model.layers.0.mlp.gate_proj.weight");
    assert_eq!(layer_tensor_name(0, WeightKind::WDown), "model.layers.0.mlp.down_proj.weight");
    assert_eq!(layer_tensor_name(31, WeightKind::AttNorm), "model.layers.31.input_layernorm.weight");
    assert_eq!(
        layer_tensor_name(100, WeightKind::FfnNorm),
        "model.layers.100.post_attention_layernorm.weight"
    );
}

#[test]
fn words_are_read_first_byte_first() {
    let bytes: Vec<u8> = vec![0x01, 0x02, 0x03, 0x04, 0x3f, 0x80, 0x00, 0x00, 0xff, 0xff, 0xff, 0xff];
    let words: Vec<u32> = decode_words(&bytes, &|w: u32| w);
    assert_eq!(words, vec![0x01020304, 0x3f800000, 0xffffffff]);
    let floats: Vec<f32> = decode_words(&bytes[4..8], &f32::from_bits);
    assert_eq!(floats, vec![1.0]);
    let stored: Vec<u8> = [0.14453125f32, -0.0625].iter().flat_map(|x| x.to_be_bytes()).collect();
    let read: Vec<f32> = decode_words(&stored, &f32::from_bits);
    assert_eq!(read, vec![0.14453125, -0.0625]);
    let none: Vec<u32> = decode_words(&[], &|w: u32| w);
    assert_eq!(none, Vec::<u32>::new());
}

#[test]
fn load_tensor_reads_shape_and_elements() {
    let bytes = container(&entries(1));
    let st = SafeTensors::deserialize(&bytes).unwrap();
    let t: Tensor<f32> = load_tensor(&st, "model.norm.weight", &vec![8], &f32::from_bits).unwrap();
    assert_eq!(t.shape(), &vec![8]);
    let expected: Vec<f32> = (0..8).map(|i| value(9, i)).collect();
    assert_eq!(t.data(), &expected[..]);
    let head: Tensor<f32> = load_tensor(&st, "lm_head.weight", &vec![5, 8], &f32::from_bits).unwrap();
    assert_eq!(head.get(39), value(10, 39));
}

#[test]
fn load_tensor_faults() {
    let bytes = container(&entries(1));
    let st = SafeTensors::deserialize(&bytes).unwrap();
    let missing = load_tensor::<f32, _>(&st, "model.norm.bias", &vec![8], &f32::from_bits);
    assert_eq!(kind_of(&missing.err().unwrap()), "missing model.norm.bias");
    let shape = load_tensor::<f32, _>(&st, "model.norm.weight", &vec![2, 4], &f32::from_bits);
    assert_eq!(kind_of(&shape.err().unwrap()), "shape model.norm.weight");
    let longer = load_tensor::<f32, _>(&st, "model.norm.weight", &vec![9], &f32::from_bits);
    assert_eq!(kind_of(&longer.err().unwrap()), "shape model.norm.weight");
}

#[test]
fn load_tensor_wants_four_bytes_an_element() {
    let halves: Vec<u8> = vec![0; 16];
    let wide: Vec<u8> = vec![0; 64];
    let views: Vec<(String, TensorView)> = vec![
        ("half".to_string(), TensorView::new(Dtype::F16, vec![8], &halves).unwrap()),
        ("wide".to_string(), TensorView::new(Dtype::F64, vec![8], &wide).unwrap()),
    ];
    let bytes = safetensors::serialize(views, &None).unwrap();
    let st = SafeTensors::deserialize(&bytes).unwrap();
    let half = load_tensor::<f32, _>(&st, "half", &vec![8], &f32::from_bits);
    assert_eq!(kind_of(&half.err().unwrap()), "width half");
    let wide = load_tensor::<f32, _>(&st, "wide", &vec![8], &f32::from_bits);
    assert_eq!(kind_of(&wide.err().unwrap()), "width wide");
}

#[test]
fn load_group_reads_every_layer() {
    let bytes = container(&entries(3));
    let st = SafeTensors::deserialize(&bytes).unwrap();
    let dims = ModelDims::from_config(&config(3)).unwrap();
    let group: Vec<Tensor<f32>> = load_group(&st, &dims, WeightKind::Wk, &f32::from_bits).unwrap();
    assert_eq!(group.len(), 3);
    for layer in 0..3 {
        assert_eq!(group[layer].shape(), &vec![4, 8]);
        assert_eq!(group[layer].get(0), value(3 + layer, 0));
        assert_eq!(group[layer].get(31), value(3 + layer, 31));
    }
}

#[test]
fn params_from_container() {
    let bytes = container(&entries(2));
    let st = SafeTensors::deserialize(&bytes).unwrap();
    let params = LLamaParams::<f32>::from_safetensors(&st, &config(2), &f32::from_bits).unwrap();
    assert_eq!(params.wq.len(), 2);
    assert_eq!(params.rms_ffn_w.len(), 2);
    assert_eq!(params.wq[0].get(5), value(0, 5));
    assert_eq!(params.wq[1].get(5), value(1, 5));
    assert_eq!(params.wk[0].get(5), value(2, 5));
    assert_eq!(params.wv[1].get(5), value(5, 5));
    assert_eq!(params.wo[0].get(63), value(6, 63));
    assert_eq!(params.w_up[1].get(47), value(9, 47));
    assert_eq!(params.w_gate[0].get(1), value(10, 1));
    assert_eq!(params.w_down[1].get(2), value(13, 2));
    assert_eq!(params.rms_att_w[0].get(7), value(14, 7));
    assert_eq!(params.rms_ffn_w[1].get(7), value(17, 7));
    assert_eq!(params.rms_out_w.get(3), value(18, 3));
    assert_eq!(params.lm_head.get(39), value(19, 39));
    assert_eq!(params.embedding_table.data(), params.lm_head.data());
    assert_eq!(params.w_down[0].shape(), &vec![8, 6]);
    assert_eq!(params.lm_head.shape(), &vec![5, 8]);
}

#[test]
fn params_of_many_layers() {
    let bytes = container(&entries(11));
    let st = SafeTensors::deserialize(&bytes).unwrap();
    let params = LLamaParams::<f32>::from_safetensors(&st, &config(11), &f32::from_bits).unwrap();
    assert_eq!(params.wq.len(), 11);
    assert_eq!(params.wq[10].get(0), value(10, 0));
    assert_eq!(params.rms_ffn_w[10].get(0), value(98, 0));
}

#[test]
fn params_report_the_first_fault() {
    let mut all = entries(2);
    all.retain(|e| e.0 != "model.layers.1.self_attn.v_proj.weight" && e.0 != "model.norm.weight");
    let bytes = container(&all);
    let st = SafeTensors::deserialize(&bytes).unwrap();
    let r = LLamaParams::<f32>::from_safetensors(&st, &config(2), &f32::from_bits);
    assert_eq!(kind_of(&r.err().unwrap()), "missing model.layers.1.self_attn.v_proj.weight");

    let mut all = entries(2);
    all.retain(|e| e.0 != "lm_head.weight");
    let bytes = container(&all);
    let st = SafeTensors::deserialize(&bytes).unwrap();
    let r = LLamaParams::<f32>::from_safetensors(&st, &config(2), &f32::from_bits);
    assert_eq!(kind_of(&r.err().unwrap()), "missing lm_head.weight");

    let bytes = container(&entries(2));
    let st = SafeTensors::deserialize(&bytes).unwrap();
    let r = LLamaParams::<f32>::from_safetensors(&st, &config(3), &f32::from_bits);
    assert_eq!(kind_of(&r.err().unwrap()), "missing model.layers.2.self_attn.q_proj.weight");

    let mut wider = config(2);
    wider.intermediate_size = 7;
    let r = LLamaParams::<f32>::from_safetensors(&st, &wider, &f32::from_bits);
    assert_eq!(kind_of(&r.err().unwrap()), "shape model.layers.0.mlp.up_proj.weight");

    let mut headless = config(2);
    headless.num_attention_heads = 0;
    let r = LLamaParams::<f32>::from_safetensors(&st, &headless, &f32::from_bits);
    assert_eq!(kind_of(&r.err().unwrap()), "config NoAttentionHeads");
}

#[test]
fn model_from_bytes() {
    let bytes = container(&entries(2));
    let model = Llama::<f32>::from_safetensors(&config(2), &bytes, &f32::from_bits).unwrap();
    assert_eq!(model.vocab(), 5);
    assert_eq!(model.n_layers(), 2);
    assert_eq!(model.n_q_h(), 4);
    assert_eq!(model.n_kv_h(), 2);
    assert_eq!(model.d(), 8);
    assert_eq!(model.dqkv(), 2);
    assert_eq!(model.di(), 6);
    assert_eq!(model.max_seq_len(), 16);
    assert_eq!(model.eps(), 1e-6);
    assert_eq!(model.rope_theta(), 10000.0);
    assert_eq!(model.bos_token_id(), 1);
    assert_eq!(model.eos_token_id(), 2);
    assert_eq!(model.dimensions(), ModelDims::from_config(&config(2)).unwrap());
    assert_eq!(model.params().wq[1].get(5), value(1, 5));
}

#[test]
fn model_refuses_what_is_no_container() {
    let r = Llama::<f32>::from_safetensors(&config(2), &[1, 2, 3], &f32::from_bits);
    assert_eq!(kind_of(&r.err().unwrap()), "container");
    let r = Llama::<f32>::from_safetensors(&config(2), &[], &f32::from_bits);
    assert_eq!(kind_of(&r.err().unwrap()), "container");
    let mut bytes = container(&entries(2));
    bytes.pop();
    let r = Llama::<f32>::from_safetensors(&config(2), &bytes, &f32::from_bits);
    assert_eq!(kind_of(&r.err().unwrap()), "container");
    let mut headless = config(2);
    headless.num_attention_heads = 0;
    let r = Llama::<f32>::from_safetensors(&headless, &[1, 2, 3], &f32::from_bits);
    assert_eq!(kind_of(&r.err().unwrap()), "container");
}

#[test]
fn model_checks_config_and_weights() {
    let bytes = container(&entries(2));
    let mut uneven = config(2);
    uneven.num_key_value_heads = 3;
    let r = Llama::<f32>::from_safetensors(&uneven, &bytes, &f32::from_bits);
    assert_eq!(kind_of(&r.err().unwrap()), "config UnevenGroups");
    let mut larger = config(2);
    larger.vocab_size = 6;
    let r = Llama::<f32>::from_safetensors(&larger, &bytes, &f32::from_bits);
    assert_eq!(kind_of(&r.err().unwrap()), "shape lm_head.weight");
}

#[test]
fn cache_of_a_model() {
    let bytes = container(&entries(2));
    let model = Llama::<f32>::from_safetensors(&config(2), &bytes, &f32::from_bits).unwrap();
    let cache = model.new_cache();
    assert_eq!(cache.len(), 0);
    assert_eq!(cache.n_layers(), 2);
    assert_eq!(cache.max_len(), 16);
    assert_eq!(cache.row_width(), 4);
}

#[test]
fn forward_is_accepted_or_not() {
    let bytes = container(&entries(2));
    let model = Llama::<f32>::from_safetensors(&config(2), &bytes, &f32::from_bits).unwrap();
    let mut cache = model.new_cache();
    let ok = Tensor::<u32>::new(vec![0, 4, 2], &vec![3]);
    assert!(model.can_forward(&ok, &cache));
    let none = Tensor::<u32>::new(vec![], &vec![0]);
    assert!(!model.can_forward(&none, &cache));
    let unknown = Tensor::<u32>::new(vec![0, 5], &vec![2]);
    assert!(!model.can_forward(&unknown, &cache));
    let long = Tensor::<u32>::new(vec![1; 17], &vec![17]);
    assert!(!model.can_forward(&long, &cache));
    let full = Tensor::<u32>::new(vec![1; 16], &vec![16]);
    assert!(model.can_forward(&full, &cache));
    cache.increment(14);
    assert!(!model.can_forward(&ok, &cache));
    let two = Tensor::<u32>::new(vec![1, 1], &vec![2]);
    assert!(model.can_forward(&two, &cache));
    let other = llama_engine::kvcache::KVCache::<f32>::new(2, 16, 8, 0);
    assert!(!model.can_forward(&ok, &other));
}

#[test]
fn forward_begins_with_the_embeddings() {
    let bytes = container(&entries(2));
    let model = Llama::<f32>::from_safetensors(&config(2), &bytes, &f32::from_bits).unwrap();
    let mut cache = model.new_cache();
    let input = Tensor::<u32>::new(vec![3, 0, 3], &vec![3]);
    let pass = model.begin_forward(&input, &mut cache);
    assert_eq!(cache.len(), 3);
    assert_eq!(pass.past_seq_len, 0);
    assert_eq!(pass.seq_len, 3);
    assert_eq!(pass.total_seq_len, 3);
    assert_eq!(pass.fresh, llama_engine::kvcache::Region { start: 0, rows: 3 });
    assert_eq!(pass.attention.n_kv_h, 2);
    assert_eq!(pass.attention.n_groups, 2);
    assert_eq!(pass.attention.seq_len, 3);
    assert_eq!(pass.attention.total_seq_len, 3);
    assert_eq!(pass.attention.dqkv, 2);
    assert_eq!(pass.residual.shape(), &vec![3, 8]);
    assert_eq!(pass.hidden_states.shape(), &vec![3, 8]);
    assert_eq!(pass.q_buf.shape(), &vec![3, 8]);
    assert_eq!(pass.att_scores.shape(), &vec![2, 2, 3, 3]);
    assert_eq!(pass.gate_buf.shape(), &vec![3, 6]);
    assert_eq!(pass.up_buf.shape(), &vec![3, 6]);
    let table = model.params().embedding_table.data();
    assert_eq!(&pass.residual.data()[0..8], &table[24..32]);
    assert_eq!(&pass.residual.data()[8..16], &table[0..8]);
    assert_eq!(&pass.residual.data()[16..24], &table[24..32]);
    assert_eq!(pass.last_residual(8).data(), &table[24..32]);
    assert_eq!(pass.last_residual(8).shape(), &vec![8]);

    let next = Tensor::<u32>::new(vec![4], &vec![1]);
    let step = model.begin_forward(&next, &mut cache);
    assert_eq!(cache.len(), 4);
    assert_eq!(step.past_seq_len, 3);
    assert_eq!(step.seq_len, 1);
    assert_eq!(step.total_seq_len, 4);
    assert_eq!(step.fresh, llama_engine::kvcache::Region { start: 3, rows: 1 });
    assert_eq!(step.att_scores.shape(), &vec![2, 2, 1, 4]);
    assert_eq!(step.residual.data(), &table[32..40]);
}

#[test]
fn generation_of_a_model() {
    let bytes = container(&entries(2));
    let model = Llama::<f32>::from_safetensors(&config(2), &bytes, &f32::from_bits).unwrap();
    let mut run = model.start_generation(&[3, 4], 2);
    assert_eq!(run.tokens(), &vec![3, 4, 1]);
    run.accept(2);
    assert!(run.is_done());
    assert_eq!(run.into_tokens(), vec![3, 4, 1]);
}

#[test]
fn test_load_safetensors() {
    let config = LlamaConfigJson::<f32> {
        bos_token_id: 1,
        eos_token_id: 2,
        hidden_size: 128,
        intermediate_size: 384,
        max_position_embeddings: 512,
        num_attention_heads: 8,
        num_hidden_layers: 2,
        num_key_value_heads: 4,
        vocab_size: 2048,
        rms_norm_eps: 1e-6,
        rope_theta: 10000.0,
    };
    let shapes: Vec<(&str, Vec<usize>)> = vec![
        ("self_attn.q_proj.weight", vec![128, 128]),
        ("self_attn.k_proj.weight", vec![64, 128]),
        ("self_attn.v_proj.weight", vec![64, 128]),
        ("self_attn.o_proj.weight", vec![128, 128]),
        ("mlp.up_proj.weight", vec![384, 128]),
        ("mlp.gate_proj.weight", vec![384, 128]),
        ("mlp.down_proj.weight", vec![128, 384]),
        ("input_layernorm.weight", vec![128]),
        ("post_attention_layernorm.weight", vec![128]),
    ];
    let known: Vec<(&str, usize, f32)> = vec![
        ("lm_head.weight", 50, 0.14453125),
        ("model.layers.0.input_layernorm.weight", 10, 0.18652344),
        ("model.layers.1.post_attention_layernorm.weight", 10, 0.32421875),
        ("model.norm.weight", 100, 0.73046875),
        ("model.layers.0.mlp.down_proj.weight", 100, -0.0625),
        ("model.layers.0.mlp.up_proj.weight", 100, 1.46875),
        ("model.layers.1.mlp.gate_proj.weight", 100, 0.296875),
        ("model.layers.1.self_attn.q_proj.weight", 100, 0.032226563),
        ("model.layers.1.self_attn.k_proj.weight", 100, -0.21386719),
        ("model.layers.0.self_attn.v_proj.weight", 100, 0.041015625),
        ("model.layers.0.self_attn.o_proj.weight", 100, 0.01965332),
    ];
    let mut all: Vec<(String, Vec<usize>, Vec<f32>)> = Vec::new();
    for (suffix, shape) in &shapes {
        for layer in 0..2 {
            let n: usize = shape.iter().product();
            all.push((format!("model.layers.{}.{}", layer, suffix), shape.clone(), vec![0.0; n]));
        }
    }
    all.push(("model.norm.weight".to_string(), vec![128], vec![0.0; 128]));
    all.push(("lm_head.weight".to_string(), vec![2048, 128], vec![0.0; 2048 * 128]));
    for (name, at, x) in &known {
        let entry = all.iter_mut().find(|e| e.0 == *name).unwrap();
        entry.2[*at] = *x;
    }
    let bytes = container(&all);

    let model = Llama::<f32>::from_safetensors(&config, &bytes, &f32::from_bits).unwrap();
    assert_eq!(model.vocab(), 2048);
    assert_eq!(model.n_layers(), 2);
    assert_eq!(model.n_q_h(), 8);
    assert_eq!(model.n_kv_h(), 4);
    assert_eq!(model.d(), 128);
    assert_eq!(model.dqkv(), 16);
    assert_eq!(model.di(), 384);

    assert!(float_eq(&model.params().embedding_table.data()[50], &0.14453125, 1e-6));
    assert_eq!(model.params().lm_head.data()[10], model.params().embedding_table.data()[10]);
    assert!(float_eq(&model.params().rms_att_w[0].data()[10], &0.18652344, 1e-6));
    assert!(float_eq(&model.params().rms_ffn_w[1].data()[10], &0.32421875, 1e-6));
    assert!(float_eq(&model.params().rms_out_w.data()[100], &0.73046875, 1e-6));
    assert!(float_eq(&model.params().w_down[0].data()[100], &-0.0625, 1e-6));
    assert!(float_eq(&model.params().w_up[0].data()[100], &1.46875, 1e-6));
    assert!(float_eq(&model.params().w_gate[1].data()[100], &0.296875, 1e-6));
    assert!(float_eq(&model.params().wq[1].data()[100], &0.032226563, 1e-6));
    assert!(float_eq(&model.params().wk[1].data()[100], &-0.21386719, 1e-6));
    assert!(float_eq(&model.params().wv[0].data()[100], &0.041015625, 1e-6));
    assert!(float_eq(&model.params().wo[0].data()[100], &0.01965332, 1e-6));
}

#[test]
fn errors_in_words() {
    assert_eq!(
        LoadError::MissingTensor("lm_head.weight".to_string()).message(),
        "missing tensor: lm_head.weight"
    );
    assert_eq!(
        LoadError::ShapeMismatch("model.norm.weight".to_string()).message(),
        "tensor with an unexpected shape: model.norm.weight"
    );
    assert_eq!(
        LoadError::ElementWidth("half".to_string()).message(),
        "tensor without four bytes an element: half"
    );
    assert_eq!(
        LoadError::Config(ConfigFault::UnevenGroups).message(),
        "unusable configuration: num_attention_heads is no multiple of num_key_value_heads"
    );
    assert_eq!(ConfigFault::NoAttentionHeads.message(), "num_attention_heads is zero");
    assert_eq!(ConfigFault::NoKeyValueHeads.message(), "num_key_value_heads is zero");
    assert_eq!(
        ConfigFault::TooLarge.message(),
        "max_position_embeddings is too large for the other sizes"
    );
    let r = Llama::<f32>::from_safetensors(&config(2), &[1, 2, 3], &f32::from_bits);
    assert!(r.err().unwrap().message().starts_with("malformed weight container: "));
}

fn framed(header: &str, data: &[u8]) -> Vec<u8> {
    let mut bytes: Vec<u8> = (header.len() as u64).to_le_bytes().to_vec();
    bytes.extend_from_slice(header.as_bytes());
    bytes.extend_from_slice(data);
    bytes
}

#[test]
fn numbers_fit_reads_runs_of_digits() {
    assert!(numbers_fit(b"", 0));
    assert!(numbers_fit(b"no number at all", 0));
    assert!(numbers_fit(b"[0,100]", 100));
    assert!(!numbers_fit(b"[0,101]", 100));
    assert!(numbers_fit(b"000100", 100));
    assert!(!numbers_fit(b"x1000", 999));
    assert!(numbers_fit(b"99 99 99", 99));
    assert!(numbers_fit(b"12.5e3", 12));
    assert!(!numbers_fit(b"7", 6));
    assert!(numbers_fit(b"18446744073709551615", usize::MAX) || usize::BITS < 64);
    assert!(!numbers_fit(b"18446744073709551616", usize::MAX));
    assert!(!numbers_fit(b"99999999999999999999999999999999", usize::MAX));
}

#[test]
fn header_check_looks_at_the_header_only() {
    let limit: usize = usize::MAX - 8 - MAX_HEADER_SIZE;
    assert_eq!(MAX_HEADER_SIZE, 100_000_000);
    assert!(check_header(&[]));
    assert!(check_header(&[1, 2, 3]));
    assert!(check_header(&framed("{}", &[])));
    assert!(check_header(&framed(&format!("[{}]", limit), &[])));
    assert!(!check_header(&framed(&format!("[{}]", limit as u128 + 1), &[])));
    assert!(!check_header(&framed("{\"a\":99999999999999999999999}", &[])));
    assert!(check_header(&framed("{}", b"99999999999999999999999")));
    let mut short = framed("99999999999999999999999", &[]);
    short.pop();
    assert!(check_header(&short));
    assert!(check_header(&container(&entries(2))));
}

#[test]
fn model_refuses_a_header_that_declares_too_much() {
    let header = format!(
        "{{\"t\":{{\"dtype\":\"F32\",\"shape\":[{}],\"data_offsets\":[0,{}]}}}}",
        (usize::MAX - 3) / 4,
        usize::MAX - 3
    );
    let bytes = framed(&header, &[]);
    assert!(!check_header(&bytes));
    let r = Llama::<f32>::from_safetensors(&config(2), &bytes, &f32::from_bits);
    let error = r.err().unwrap();
    assert_eq!(kind_of(&error), "container");
    assert_eq!(error.message(), "malformed weight container: a number in the header is too large");
}

#[test]
fn model_refuses_a_long_number_in_a_name() {
    let mut all = entries(2);
    all.push(("w_99999999999999999999".to_string(), vec![1], vec![0.0]));
    let bytes = container(&all);
    let r = Llama::<f32>::from_safetensors(&config(2), &bytes, &f32::from_bits);
    assert_eq!(kind_of(&r.err().unwrap()), "container");
    let mut all = entries(2);
    all.push(("w_0000000000000000000000000001".to_string(), vec![1], vec![0.0]));
    let bytes = container(&all);
    assert!(Llama::<f32>::from_safetensors(&config(2), &bytes, &f32::from_bits).is_ok());
}

#[test]
fn output_projection_is_tied_to_the_embedding() {
    let bytes = container(&entries(2));
    let st = SafeTensors::deserialize(&bytes).unwrap();
    let params = LLamaParams::<f32>::from_safetensors(&st, &config(2), &f32::from_bits).unwrap();
    assert_eq!(params.embedding_table.shape(), params.lm_head.shape());
    assert_eq!(params.embedding_table.data(), params.lm_head.data());
    let calls = std::cell::Cell::new(0u32);
    let counting = |w: u32| -> f32 {
        calls.set(calls.get() + 1);
        f32::from_bits(w) + calls.get() as f32
    };
    let params = LLamaParams::<f32>::from_safetensors(&st, &config(2), &counting).unwrap();
    assert_eq!(params.embedding_table.data(), params.lm_head.data());
    assert!(calls.get() > 0);
}
