//! The trained weights of a model, and how they are taken out of a weight
//! container: which tensors are asked for, under which names, with which
//! shapes, and how the stored bytes become elements.

use crate::config::{config_fault, dims_of, ConfigFault, LlamaConfigJson, ModelDims};
use crate::container::{container_tensors, stored_tensor};
use crate::shape::{element_count, shape_size};
use crate::tensor::Tensor;
use vstd::prelude::*;

verus! {

/// The weights of a model. Each per-layer field holds one tensor for every
/// decoder layer.
pub struct LLamaParams<T> {
    /// Token embedding table, `(vocab, d)`.
    pub embedding_table: Tensor<T>,
    /// Attention normalization weight, `(d)`.
    pub rms_att_w: Vec<Tensor<T>>,
    /// Query projection, `(n_q_h * dqkv, d)`.
    pub wq: Vec<Tensor<T>>,
    /// Key projection, `(n_kv_h * dqkv, d)`.
    pub wk: Vec<Tensor<T>>,
    /// Value projection, `(n_kv_h * dqkv, d)`.
    pub wv: Vec<Tensor<T>>,
    /// Attention output projection, `(d, n_q_h * dqkv)`.
    pub wo: Vec<Tensor<T>>,
    /// Feed-forward normalization weight, `(d)`.
    pub rms_ffn_w: Vec<Tensor<T>>,
    /// Up projection, `(di, d)`.
    pub w_up: Vec<Tensor<T>>,
    /// Gate projection, `(di, d)`.
    pub w_gate: Vec<Tensor<T>>,
    /// Down projection, `(d, di)`.
    pub w_down: Vec<Tensor<T>>,
    /// Final normalization weight, `(d)`.
    pub rms_out_w: Tensor<T>,
    /// Output projection, `(vocab, d)`; it is tied to the embedding table.
    pub lm_head: Tensor<T>,
}

/// The weights that every decoder layer has.
#[derive(Clone, Copy, Debug, PartialEq, Eq, Structural)]
pub enum WeightKind {
    Wq,
    Wk,
    Wv,
    Wo,
    WUp,
    WGate,
    WDown,
    AttNorm,
    FfnNorm,
}

/// Why a model could not be loaded.
#[derive(Debug)]
pub enum LoadError {
    /// The configuration cannot be used.
    Config(ConfigFault),
    /// The bytes are no weight container; the text is the reader's own.
    Container(String),
    /// The container has no tensor of this name.
    MissingTensor(String),
    /// The tensor of this name has another shape than the configuration
    /// asks for.
    ShapeMismatch(String),
    /// The tensor of this name does not store four bytes for each element.
    ElementWidth(String),
}

/// A load error without its texts' representation: what contracts speak of.
pub enum LoadFault {
    Config(ConfigFault),
    Container,
    MissingTensor(Seq<char>),
    ShapeMismatch(Seq<char>),
    ElementWidth(Seq<char>),
}

impl View for LoadError {
    type V = LoadFault;

    open spec fn view(&self) -> LoadFault {
        match self {
            LoadError::Config(fault) => LoadFault::Config(*fault),
            LoadError::Container(_) => LoadFault::Container,
            LoadError::MissingTensor(name) => LoadFault::MissingTensor(name@),
            LoadError::ShapeMismatch(name) => LoadFault::ShapeMismatch(name@),
            LoadError::ElementWidth(name) => LoadFault::ElementWidth(name@),
        }
    }
}

impl LoadError {
    /// What went wrong, in words: the kind of the fault, and the name of the
    /// tensor or the setting that it is about.
    pub open spec fn text(&self) -> Seq<char> {
        match self {
            LoadError::Config(fault) => "unusable configuration: "@ + fault.text(),
            LoadError::Container(reason) => "malformed weight container: "@ + reason@,
            LoadError::MissingTensor(name) => "missing tensor: "@ + name@,
            LoadError::ShapeMismatch(name) => "tensor with an unexpected shape: "@ + name@,
            LoadError::ElementWidth(name) => "tensor without four bytes an element: "@ + name@,
        }
    }

    /// What went wrong, in words.
    pub fn message(&self) -> (r: String)
        ensures
            r@ == self.text(),
    {
        match self {
            LoadError::Config(fault) => String::from_str("unusable configuration: ").concat(
                fault.message(),
            ),
            LoadError::Container(reason) => String::from_str("malformed weight container: ").concat(
                reason.as_str(),
            ),
            LoadError::MissingTensor(name) => String::from_str("missing tensor: ").concat(
                name.as_str(),
            ),
            LoadError::ShapeMismatch(name) => String::from_str(
                "tensor with an unexpected shape: ",
            ).concat(name.as_str()),
            LoadError::ElementWidth(name) => String::from_str(
                "tensor without four bytes an element: ",
            ).concat(name.as_str()),
        }
    }
}

/// The 32-bit word that four stored bytes stand for. The bytes are stored
/// most significant first.
pub open spec fn word_of(b0: u8, b1: u8, b2: u8, b3: u8) -> u32 {
    (16777216 * b0 + 65536 * b1 + 256 * b2 + b3) as u32
}

/// The word that the `i`-th group of four bytes stands for.
pub open spec fn word_at(bytes: Seq<u8>, i: int) -> u32 {
    word_of(bytes[4 * i], bytes[4 * i + 1], bytes[4 * i + 2], bytes[4 * i + 3])
}

/// `elements` is what `decode` makes of the words of `bytes`, one element for
/// each group of four bytes, in order.
pub open spec fn decoded<T, F: Fn(u32) -> T>(elements: Seq<T>, bytes: Seq<u8>, decode: &F) -> bool {
    &&& elements.len() * 4 == bytes.len()
    &&& forall|i: int|
        0 <= i < elements.len() ==> call_ensures(
            decode,
            (word_at(bytes, i),),
            #[trigger] elements[i],
        )
}

/// The decimal digit of a number below ten.
pub open spec fn digit_char(d: nat) -> char {
    if d == 0 {
        '0'
    } else if d == 1 {
        '1'
    } else if d == 2 {
        '2'
    } else if d == 3 {
        '3'
    } else if d == 4 {
        '4'
    } else if d == 5 {
        '5'
    } else if d == 6 {
        '6'
    } else if d == 7 {
        '7'
    } else if d == 8 {
        '8'
    } else {
        '9'
    }
}

/// A number in decimal, without leading zeros.
pub open spec fn decimal(n: nat) -> Seq<char>
    decreases n,
{
    if n < 10 {
        seq![digit_char(n)]
    } else {
        decimal(n / 10).push(digit_char(n % 10))
    }
}

impl WeightKind {
    /// The part of a tensor's name that says which weight of its layer it is.
    pub open spec fn spec_suffix(self) -> Seq<char> {
        match self {
            WeightKind::Wq => "self_attn.q_proj.weight"@,
            WeightKind::Wk => "self_attn.k_proj.weight"@,
            WeightKind::Wv => "self_attn.v_proj.weight"@,
            WeightKind::Wo => "self_attn.o_proj.weight"@,
            WeightKind::WUp => "mlp.up_proj.weight"@,
            WeightKind::WGate => "mlp.gate_proj.weight"@,
            WeightKind::WDown => "mlp.down_proj.weight"@,
            WeightKind::AttNorm => "input_layernorm.weight"@,
            WeightKind::FfnNorm => "post_attention_layernorm.weight"@,
        }
    }

    /// The shape that a model of the given dimensions has for this weight.
    pub open spec fn shape(self, dims: ModelDims) -> Seq<usize> {
        match self {
            WeightKind::Wq => seq![(dims.n_q_h * dims.dqkv) as usize, dims.d],
            WeightKind::Wk => seq![(dims.n_kv_h * dims.dqkv) as usize, dims.d],
            WeightKind::Wv => seq![(dims.n_kv_h * dims.dqkv) as usize, dims.d],
            WeightKind::Wo => seq![dims.d, (dims.n_q_h * dims.dqkv) as usize],
            WeightKind::WUp => seq![dims.di, dims.d],
            WeightKind::WGate => seq![dims.di, dims.d],
            WeightKind::WDown => seq![dims.d, dims.di],
            WeightKind::AttNorm => seq![dims.d],
            WeightKind::FfnNorm => seq![dims.d],
        }
    }

    /// The part of a tensor's name that says which weight of its layer it is.
    pub fn suffix(self) -> (r: &'static str)
        ensures
            r@ == self.spec_suffix(),
    {
        match self {
            WeightKind::Wq => "self_attn.q_proj.weight",
            WeightKind::Wk => "self_attn.k_proj.weight",
            WeightKind::Wv => "self_attn.v_proj.weight",
            WeightKind::Wo => "self_attn.o_proj.weight",
            WeightKind::WUp => "mlp.up_proj.weight",
            WeightKind::WGate => "mlp.gate_proj.weight",
            WeightKind::WDown => "mlp.down_proj.weight",
            WeightKind::AttNorm => "input_layernorm.weight",
            WeightKind::FfnNorm => "post_attention_layernorm.weight",
        }
    }

    /// The shape that a model of the given dimensions has for this weight.
    pub fn expected_shape(self, dims: &ModelDims) -> (r: Vec<usize>)
        requires
            dims.wf(),
        ensures
            r@ == self.shape(*dims),
    {
        proof {
            dims.lemma_widths();
        }
        let r: Vec<usize> = match self {
            WeightKind::Wq => vec![dims.n_q_h * dims.dqkv, dims.d],
            WeightKind::Wk => vec![dims.n_kv_h * dims.dqkv, dims.d],
            WeightKind::Wv => vec![dims.n_kv_h * dims.dqkv, dims.d],
            WeightKind::Wo => vec![dims.d, dims.n_q_h * dims.dqkv],
            WeightKind::WUp => vec![dims.di, dims.d],
            WeightKind::WGate => vec![dims.di, dims.d],
            WeightKind::WDown => vec![dims.d, dims.di],
            WeightKind::AttNorm => vec![dims.d],
            WeightKind::FfnNorm => vec![dims.d],
        };
        assert(r@ =~= self.shape(*dims));
        r
    }
}

/// The name under which a container stores a weight of a layer.
pub open spec fn layer_name(layer: nat, kind: WeightKind) -> Seq<char> {
    "model.layers."@ + decimal(layer) + "."@ + kind.spec_suffix()
}

/// The name under which a container stores the final normalization weight.
pub open spec fn norm_name() -> Seq<char> {
    "model.norm.weight"@
}

/// The name under which a container stores the output projection, which is
/// the embedding table too.
pub open spec fn head_name() -> Seq<char> {
    "lm_head.weight"@
}

/// What is wrong, if anything, with the tensor that a container stores under
/// `name`, where a tensor of shape `expected` is asked for.
pub open spec fn entry_fault(
    contents: Map<Seq<char>, (Seq<usize>, Seq<u8>)>,
    name: Seq<char>,
    expected: Seq<usize>,
) -> Option<LoadFault> {
    if !contents.contains_key(name) {
        Some(LoadFault::MissingTensor(name))
    } else if contents[name].0 != expected {
        Some(LoadFault::ShapeMismatch(name))
    } else if contents[name].1.len() != 4 * shape_size(expected) {
        Some(LoadFault::ElementWidth(name))
    } else {
        None
    }
}

/// The first fault among the weights of one kind in the layers below `upto`.
pub open spec fn group_fault(
    contents: Map<Seq<char>, (Seq<usize>, Seq<u8>)>,
    dims: ModelDims,
    kind: WeightKind,
    upto: nat,
) -> Option<LoadFault>
    decreases upto,
{
    if upto == 0 {
        None
    } else {
        first_fault(
            group_fault(contents, dims, kind, (upto - 1) as nat),
            entry_fault(contents, layer_name((upto - 1) as nat, kind), kind.shape(dims)),
        )
    }
}

/// The earlier of two faults.
pub open spec fn first_fault(earlier: Option<LoadFault>, later: Option<LoadFault>) -> Option<
    LoadFault,
> {
    if earlier is Some {
        earlier
    } else {
        later
    }
}

/// The first fault among all the weights of a model, in the order in which
/// they are read: kind by kind, the layers of each kind in turn, then the final
/// normalization weight and the output projection.
pub open spec fn params_fault(
    contents: Map<Seq<char>, (Seq<usize>, Seq<u8>)>,
    dims: ModelDims,
) -> Option<LoadFault> {
    let n = dims.n_layers as nat;
    first_fault(
        group_fault(contents, dims, WeightKind::Wq, n),
        first_fault(
            group_fault(contents, dims, WeightKind::Wk, n),
            first_fault(
                group_fault(contents, dims, WeightKind::Wv, n),
                first_fault(
                    group_fault(contents, dims, WeightKind::Wo, n),
                    first_fault(
                        group_fault(contents, dims, WeightKind::WUp, n),
                        first_fault(
                            group_fault(contents, dims, WeightKind::WGate, n),
                            first_fault(
                                group_fault(contents, dims, WeightKind::WDown, n),
                                first_fault(
                                    group_fault(contents, dims, WeightKind::AttNorm, n),
                                    first_fault(
                                        group_fault(contents, dims, WeightKind::FfnNorm, n),
                                        first_fault(
                                            entry_fault(contents, norm_name(), seq![dims.d]),
                                            entry_fault(
                                                contents,
                                                head_name(),
                                                seq![dims.vocab, dims.d],
                                            ),
                                        ),
                                    ),
                                ),
                            ),
                        ),
                    ),
                ),
            ),
        ),
    )
}

/// The first reason, if any, why a model cannot be loaded from a container
/// of the given contents under the given configuration.
pub open spec fn load_fault<T>(
    contents: Map<Seq<char>, (Seq<usize>, Seq<u8>)>,
    config: &LlamaConfigJson<T>,
) -> Option<LoadFault> {
    match config_fault(config) {
        Some(fault) => Some(LoadFault::Config(fault)),
        None => params_fault(contents, dims_of(config)),
    }
}

/// `tensor` has the shape `expected` and holds what `decode` makes of
/// `bytes`.
pub open spec fn tensor_holds<T: Copy, F: Fn(u32) -> T>(
    tensor: Tensor<T>,
    bytes: Seq<u8>,
    expected: Seq<usize>,
    decode: &F,
) -> bool {
    &&& tensor.dims() == expected
    &&& tensor.wf()
    &&& decoded(tensor@, bytes, decode)
}

/// `tensors` holds, for each layer in turn, the weight of the given kind as
/// the container stores it.
pub open spec fn group_holds<T: Copy, F: Fn(u32) -> T>(
    tensors: Seq<Tensor<T>>,
    contents: Map<Seq<char>, (Seq<usize>, Seq<u8>)>,
    dims: ModelDims,
    kind: WeightKind,
    decode: &F,
) -> bool {
    &&& tensors.len() == dims.n_layers
    &&& forall|l: int|
        0 <= l < tensors.len() ==> tensor_holds(
            #[trigger] tensors[l],
            contents[layer_name(l as nat, kind)].1,
            kind.shape(dims),
            decode,
        )
}

/// The text of a decimal digit.
fn digit_str(d: usize) -> (r: &'static str)
    requires
        d < 10,
    ensures
        r@ == seq![digit_char(d as nat)],
{
    proof {
        reveal_strlit("0");
        reveal_strlit("1");
        reveal_strlit("2");
        reveal_strlit("3");
        reveal_strlit("4");
        reveal_strlit("5");
        reveal_strlit("6");
        reveal_strlit("7");
        reveal_strlit("8");
        reveal_strlit("9");
    }
    let r: &'static str = if d == 0 {
        "0"
    } else if d == 1 {
        "1"
    } else if d == 2 {
        "2"
    } else if d == 3 {
        "3"
    } else if d == 4 {
        "4"
    } else if d == 5 {
        "5"
    } else if d == 6 {
        "6"
    } else if d == 7 {
        "7"
    } else if d == 8 {
        "8"
    } else {
        "9"
    };
    assert(r@ =~= seq![digit_char(d as nat)]);
    r
}

/// Writes a number in decimal.
pub fn decimal_string(n: usize) -> (r: String)
    ensures
        r@ == decimal(n as nat),
    decreases n,
{
    if n < 10 {
        String::from_str(digit_str(n))
    } else {
        let mut s = decimal_string(n / 10);
        s.append(digit_str(n % 10));
        assert(s@ =~= decimal((n / 10) as nat).push(digit_char((n % 10) as nat)));
        s
    }
}

/// The name under which a container stores a weight of a layer.
pub fn layer_tensor_name(layer: usize, kind: WeightKind) -> (r: String)
    ensures
        r@ == layer_name(layer as nat, kind),
{
    let mut s = String::from_str("model.layers.");
    let digits = decimal_string(layer);
    s.append(digits.as_str());
    s.append(".");
    s.append(kind.suffix());
    s
}

/// Whether two shapes are the same.
fn same_shape(a: &Vec<usize>, b: &Vec<usize>) -> (r: bool)
    ensures
        r == (a@ == b@),
{
    if a.len() != b.len() {
        return false;
    }
    let mut i: usize = 0;
    while i < a.len()
        invariant
            a@.len() == b@.len(),
            i <= a@.len(),
            forall|k: int| 0 <= k < i ==> a@[k] == b@[k],
        decreases a@.len() - i,
    {
        if a[i] != b[i] {
            return false;
        }
        i += 1;
    }
    assert(a@ =~= b@);
    true
}

/// Decodes the words of a byte buffer, four bytes to an element.
pub fn decode_words<T: Copy, F: Fn(u32) -> T>(bytes: &[u8], decode: &F) -> (r: Vec<T>)
    requires
        bytes@.len() % 4 == 0,
        forall|w: u32| call_requires(decode, (w,)),
    ensures
        decoded(r@, bytes@, decode),
{
    let n: usize = bytes.len() / 4;
    let mut out: Vec<T> = Vec::new();
    let mut i: usize = 0;
    while i < n
        invariant
            n * 4 == bytes@.len() <= usize::MAX,
            i <= n,
            out@.len() == i,
            forall|w: u32| call_requires(decode, (w,)),
            forall|k: int|
                0 <= k < i ==> call_ensures(decode, (word_at(bytes@, k),), #[trigger] out@[k]),
        decreases n - i,
    {
        let b0: u32 = bytes[4 * i] as u32;
        let b1: u32 = bytes[4 * i + 1] as u32;
        let b2: u32 = bytes[4 * i + 2] as u32;
        let b3: u32 = bytes[4 * i + 3] as u32;
        let word: u32 = 16777216 * b0 + 65536 * b1 + 256 * b2 + b3;
        assert(word == word_at(bytes@, i as int));
        out.push(decode(word));
        i += 1;
    }
    out
}

/// Takes one tensor out of a container: the tensor stored under `name`, which
/// must have the shape `expected` and four bytes for each element.
pub fn load_tensor<T: Copy, F: Fn(u32) -> T>(
    container: &safetensors::SafeTensors<'_>,
    name: &str,
    expected: &Vec<usize>,
    decode: &F,
) -> (r: Result<Tensor<T>, LoadError>)
    requires
        forall|w: u32| call_requires(decode, (w,)),
    ensures
        match r {
            Ok(tensor) => entry_fault(container_tensors(*container), name@, expected@) is None
                && tensor_holds(tensor, container_tensors(*container)[name@].1, expected@, decode),
            Err(error) => entry_fault(container_tensors(*container), name@, expected@) == Some(
                error@,
            ),
        },
{
    match stored_tensor(container, name) {
        None => Err(LoadError::MissingTensor(String::from_str(name))),
        Some(found) => {
            let shape: Vec<usize> = found.0;
            let bytes: &[u8] = found.1;
            let stored: usize = bytes.len();
            if !same_shape(&shape, expected) {
                return Err(LoadError::ShapeMismatch(String::from_str(name)));
            }
            let count: usize = match element_count(expected) {
                Some(count) => count,
                None => {
                    return Err(LoadError::ElementWidth(String::from_str(name)));
                },
            };
            let width: usize = match count.checked_mul(4) {
                Some(width) => width,
                None => {
                    return Err(LoadError::ElementWidth(String::from_str(name)));
                },
            };
            if width != stored {
                return Err(LoadError::ElementWidth(String::from_str(name)));
            }
            let data: Vec<T> = decode_words(bytes, decode);
            Ok(Tensor::new(data, expected))
        },
    }
}

/// Takes the weights of one kind out of a container, one for each layer.
pub fn load_group<T: Copy, F: Fn(u32) -> T>(
    container: &safetensors::SafeTensors<'_>,
    dims: &ModelDims,
    kind: WeightKind,
    decode: &F,
) -> (r: Result<Vec<Tensor<T>>, LoadError>)
    requires
        dims.wf(),
        forall|w: u32| call_requires(decode, (w,)),
    ensures
        match r {
            Ok(tensors) => group_fault(
                container_tensors(*container),
                *dims,
                kind,
                dims.n_layers as nat,
            ) is None && group_holds(tensors@, container_tensors(*container), *dims, kind, decode),
            Err(error) => group_fault(
                container_tensors(*container),
                *dims,
                kind,
                dims.n_layers as nat,
            ) == Some(error@),
        },
{
    let expected: Vec<usize> = kind.expected_shape(dims);
    let mut out: Vec<Tensor<T>> = Vec::new();
    let mut layer: usize = 0;
    while layer < dims.n_layers
        invariant
            layer <= dims.n_layers,
            out@.len() == layer,
            expected@ == kind.shape(*dims),
            forall|w: u32| call_requires(decode, (w,)),
            group_fault(container_tensors(*container), *dims, kind, layer as nat) is None,
            forall|l: int|
                0 <= l < layer ==> tensor_holds(
                    #[trigger] out@[l],
                    container_tensors(*container)[layer_name(l as nat, kind)].1,
                    kind.shape(*dims),
                    decode,
                ),
        decreases dims.n_layers - layer,
    {
        let name: String = layer_tensor_name(layer, kind);
        match load_tensor(container, name.as_str(), &expected, decode) {
            Ok(tensor) => {
                out.push(tensor);
            },
            Err(error) => {
                proof {
                    lemma_fault_stays(
                        container_tensors(*container),
                        *dims,
                        kind,
                        (layer + 1) as nat,
                        dims.n_layers as nat,
                    );
                }
                return Err(error);
            },
        }
        layer += 1;
    }
    Ok(out)
}

/// A fault among the first layers is the fault among all of them.
pub proof fn lemma_fault_stays(
    contents: Map<Seq<char>, (Seq<usize>, Seq<u8>)>,
    dims: ModelDims,
    kind: WeightKind,
    upto: nat,
    all: nat,
)
    requires
        upto <= all,
        group_fault(contents, dims, kind, upto) is Some,
    ensures
        group_fault(contents, dims, kind, all) == group_fault(contents, dims, kind, upto),
    decreases all - upto,
{
    if upto < all {
        lemma_fault_stays(contents, dims, kind, upto, (all - 1) as nat);
    }
}

/// `tensors` has one well-formed tensor of the shape of the given kind for
/// each layer.
pub open spec fn group_fits<T: Copy>(tensors: Seq<Tensor<T>>, dims: ModelDims, kind: WeightKind) -> bool {
    &&& tensors.len() == dims.n_layers
    &&& forall|l: int|
        0 <= l < tensors.len() ==> (#[trigger] tensors[l]).dims() == kind.shape(dims)
            && tensors[l].wf()
}

impl<T: Copy> LLamaParams<T> {
    /// Every weight has the shape that a model of the given dimensions has
    /// for it.
    pub open spec fn fits(&self, dims: ModelDims) -> bool {
        &&& group_fits(self.wq@, dims, WeightKind::Wq)
        &&& group_fits(self.wk@, dims, WeightKind::Wk)
        &&& group_fits(self.wv@, dims, WeightKind::Wv)
        &&& group_fits(self.wo@, dims, WeightKind::Wo)
        &&& group_fits(self.w_up@, dims, WeightKind::WUp)
        &&& group_fits(self.w_gate@, dims, WeightKind::WGate)
        &&& group_fits(self.w_down@, dims, WeightKind::WDown)
        &&& group_fits(self.rms_att_w@, dims, WeightKind::AttNorm)
        &&& group_fits(self.rms_ffn_w@, dims, WeightKind::FfnNorm)
        &&& self.rms_out_w.dims() == seq![dims.d] && self.rms_out_w.wf()
        &&& self.lm_head.dims() == seq![dims.vocab, dims.d] && self.lm_head.wf()
        &&& self.embedding_table.dims() == seq![dims.vocab, dims.d] && self.embedding_table.wf()
    }

    /// Weights taken out of a container have the shapes of the model.
    pub proof fn lemma_holds_fits<F: Fn(u32) -> T>(
        &self,
        contents: Map<Seq<char>, (Seq<usize>, Seq<u8>)>,
        dims: ModelDims,
        decode: &F,
    )
        requires
            self.holds(contents, dims, decode),
        ensures
            self.fits(dims),
    {
    }

    /// The weights are those that a container of the given contents stores
    /// for a model of the given dimensions, each decoded by `decode`.
    pub open spec fn holds<F: Fn(u32) -> T>(
        &self,
        contents: Map<Seq<char>, (Seq<usize>, Seq<u8>)>,
        dims: ModelDims,
        decode: &F,
    ) -> bool {
        &&& group_holds(self.wq@, contents, dims, WeightKind::Wq, decode)
        &&& group_holds(self.wk@, contents, dims, WeightKind::Wk, decode)
        &&& group_holds(self.wv@, contents, dims, WeightKind::Wv, decode)
        &&& group_holds(self.wo@, contents, dims, WeightKind::Wo, decode)
        &&& group_holds(self.w_up@, contents, dims, WeightKind::WUp, decode)
        &&& group_holds(self.w_gate@, contents, dims, WeightKind::WGate, decode)
        &&& group_holds(self.w_down@, contents, dims, WeightKind::WDown, decode)
        &&& group_holds(self.rms_att_w@, contents, dims, WeightKind::AttNorm, decode)
        &&& group_holds(self.rms_ffn_w@, contents, dims, WeightKind::FfnNorm, decode)
        &&& tensor_holds(self.rms_out_w, contents[norm_name()].1, seq![dims.d], decode)
        &&& tensor_holds(self.lm_head, contents[head_name()].1, seq![dims.vocab, dims.d], decode)
        &&& tensor_holds(
            self.embedding_table,
            contents[head_name()].1,
            seq![dims.vocab, dims.d],
            decode,
        )
        &&& self.embedding_table@ == self.lm_head@
    }

    /// Takes the weights of a model out of a container. The configuration
    /// says how many layers there are and which shape each weight must have;
    /// `decode` turns each stored 32-bit word into an element. The first
    /// fault in reading order is reported, and nothing is loaded.
    pub fn from_safetensors<F: Fn(u32) -> T>(
        safetensor: &safetensors::SafeTensors<'_>,
        config: &LlamaConfigJson<T>,
        decode: &F,
    ) -> (r: Result<Self, LoadError>)
        requires
            forall|w: u32| call_requires(decode, (w,)),
        ensures
            match r {
                Ok(params) => load_fault(container_tensors(*safetensor), config) is None
                    && params.holds(container_tensors(*safetensor), dims_of(config), decode),
                Err(error) => load_fault(container_tensors(*safetensor), config) == Some(error@),
            },
    {
        let dims: ModelDims = match ModelDims::from_config(config) {
            Ok(dims) => dims,
            Err(fault) => {
                return Err(LoadError::Config(fault));
            },
        };
        Self::load(safetensor, &dims, decode)
    }

    /// Takes the weights of a model of the given dimensions out of a
    /// container.
    pub fn load<F: Fn(u32) -> T>(
        safetensor: &safetensors::SafeTensors<'_>,
        dims: &ModelDims,
        decode: &F,
    ) -> (r: Result<Self, LoadError>)
        requires
            dims.wf(),
            forall|w: u32| call_requires(decode, (w,)),
        ensures
            match r {
                Ok(params) => params_fault(container_tensors(*safetensor), *dims) is None
                    && params.holds(container_tensors(*safetensor), *dims, decode),
                Err(error) => params_fault(container_tensors(*safetensor), *dims) == Some(error@),
            },
    {
        let wq = load_group(safetensor, dims, WeightKind::Wq, decode)?;
        let wk = load_group(safetensor, dims, WeightKind::Wk, decode)?;
        let wv = load_group(safetensor, dims, WeightKind::Wv, decode)?;
        let wo = load_group(safetensor, dims, WeightKind::Wo, decode)?;
        let w_up = load_group(safetensor, dims, WeightKind::WUp, decode)?;
        let w_gate = load_group(safetensor, dims, WeightKind::WGate, decode)?;
        let w_down = load_group(safetensor, dims, WeightKind::WDown, decode)?;
        let rms_att_w = load_group(safetensor, dims, WeightKind::AttNorm, decode)?;
        let rms_ffn_w = load_group(safetensor, dims, WeightKind::FfnNorm, decode)?;
        let norm_shape: Vec<usize> = vec![dims.d];
        let head_shape: Vec<usize> = vec![dims.vocab, dims.d];
        assert(norm_shape@ =~= seq![dims.d]);
        assert(head_shape@ =~= seq![dims.vocab, dims.d]);
        let rms_out_w = load_tensor(safetensor, "model.norm.weight", &norm_shape, decode)?;
        let lm_head = load_tensor(safetensor, "lm_head.weight", &head_shape, decode)?;
        let embedding_table = lm_head.copy();
        Ok(
            LLamaParams {
                embedding_table,
                rms_att_w,
                wq,
                wk,
                wv,
                wo,
                rms_ffn_w,
                w_up,
                w_gate,
                w_down,
                rms_out_w,
                lm_head,
            },
        )
    }
}

} // verus!
