//! What the host knows of a transformer layer, and which paths the layer can take.

use vstd::prelude::*;

verus! {

/// Storage format of a weight matrix.
#[derive(Clone, Copy, Debug, PartialEq, Eq, Structural)]
#[allow(non_camel_case_types)]
pub enum QuantFormat {
    Q4_0,
    Q4_K,
    Q4_KF,
    Q5_K,
    Q6_K,
    Q8_0,
    BF16,
    F16,
    F32,
}

impl QuantFormat {
    /// The format's name in messages.
    pub open spec fn text(self) -> Seq<char> {
        match self {
            QuantFormat::Q4_0 => "Q4_0"@,
            QuantFormat::Q4_K => "Q4_K"@,
            QuantFormat::Q4_KF => "Q4_KF"@,
            QuantFormat::Q5_K => "Q5_K"@,
            QuantFormat::Q6_K => "Q6_K"@,
            QuantFormat::Q8_0 => "Q8_0"@,
            QuantFormat::BF16 => "BF16"@,
            QuantFormat::F16 => "F16"@,
            QuantFormat::F32 => "F32"@,
        }
    }

    pub fn name(&self) -> (s: &'static str)
        ensures
            s@ == self.text(),
            *self == QuantFormat::Q4_0 ==> s@ == "Q4_0"@,
            *self == QuantFormat::Q4_K ==> s@ == "Q4_K"@,
            *self == QuantFormat::Q4_KF ==> s@ == "Q4_KF"@,
            *self == QuantFormat::Q5_K ==> s@ == "Q5_K"@,
            *self == QuantFormat::Q6_K ==> s@ == "Q6_K"@,
            *self == QuantFormat::Q8_0 ==> s@ == "Q8_0"@,
            *self == QuantFormat::BF16 ==> s@ == "BF16"@,
            *self == QuantFormat::F16 ==> s@ == "F16"@,
            *self == QuantFormat::F32 ==> s@ == "F32"@,
    {
        match self {
            QuantFormat::Q4_0 => "Q4_0",
            QuantFormat::Q4_K => "Q4_K",
            QuantFormat::Q4_KF => "Q4_KF",
            QuantFormat::Q5_K => "Q5_K",
            QuantFormat::Q6_K => "Q6_K",
            QuantFormat::Q8_0 => "Q8_0",
            QuantFormat::BF16 => "BF16",
            QuantFormat::F16 => "F16",
            QuantFormat::F32 => "F32",
        }
    }
}

#[derive(Clone, Copy, Debug, PartialEq, Eq, Structural)]
pub enum NormType {
    RmsNorm,
    LayerNorm,
}

#[derive(Clone, Copy, Debug, PartialEq, Eq, Structural)]
pub enum FfnType {
    Gated,
    Standard,
}

#[derive(Clone, Copy, Debug, PartialEq, Eq, Structural)]
pub enum Activation {
    Silu,
    GeluTanh,
    GeluExact,
    ReLU,
}

/// A weight matrix: its format and the length of its packed bytes.
#[derive(Clone, Copy, Debug, PartialEq, Eq, Structural)]
pub struct QuantWeight {
    pub format: QuantFormat,
    pub data_len: usize,
}

/// One transformer layer as the planner sees it. Floating-point settings are held as
/// the bit patterns of their `f32` values; norm weights as whether they are there.
#[derive(Clone, Copy, Debug)]
pub struct FullPipelineLayer {
    pub wq: QuantWeight,
    pub wk: QuantWeight,
    pub wv: QuantWeight,
    pub wo: QuantWeight,
    pub gate: QuantWeight,
    pub up: QuantWeight,
    pub down: QuantWeight,
    pub has_post_norms: bool,
    /// Whether the layer has a norm weight of its own before the feed-forward part.
    pub pre_ffn_norm: bool,
    /// Length of the norm weight behind the feed-forward part, where there is one.
    pub post_ffn_norm: Option<usize>,
    pub q_norm_weight: bool,
    pub k_norm_weight: bool,
    pub has_v_norm: bool,
    pub norm_type: NormType,
    pub ffn_type: FfnType,
    pub activation: Activation,
    pub has_moe: bool,
    pub ffn_is_remote: bool,
    pub head_dim: usize,
    pub num_q_heads: usize,
    pub num_kv_heads: usize,
    pub rotary_dim: usize,
    pub rope_base_bits: u32,
    pub layer_scalar_bits: u32,
    pub attn_scale_bits: u32,
    pub eps_bits: u32,
    pub norm_offset_bits: u32,
    pub qk_norm_offset_bits: u32,
}

/// Bit pattern of the `f32` value one.
pub const ONE_BITS: u32 = 0x3f80_0000;

/// Bit pattern of the negative `f32` zero.
pub const NEG_ZERO_BITS: u32 = 0x8000_0000;

/// `true` for the bit patterns of the two `f32` zeros.
pub open spec fn zero_bits(bits: u32) -> bool {
    bits == 0 || bits == NEG_ZERO_BITS
}

pub open spec fn max_int(a: int, b: int) -> int {
    if a >= b {
        a
    } else {
        b
    }
}

pub fn max_usize(a: usize, b: usize) -> (r: usize)
    ensures
        r == max_int(a as int, b as int),
        r >= a && r >= b && (r == a || r == b),
{
    if a >= b {
        a
    } else {
        b
    }
}

/// Formats that the packed-input matvec kernels take.
pub open spec fn mmvq_format(f: QuantFormat) -> bool {
    f == QuantFormat::Q4_K || f == QuantFormat::Q6_K
}

/// Formats that a device-resident matvec takes.
pub open spec fn device_format(f: QuantFormat) -> bool {
    f == QuantFormat::Q4_K || f == QuantFormat::Q4_KF || f == QuantFormat::Q6_K
}

impl FullPipelineLayer {
    /// The seven projection weights.
    pub open spec fn weights(self) -> Seq<QuantWeight> {
        seq![self.wq, self.wk, self.wv, self.wo, self.gate, self.up, self.down]
    }

    /// A plain transformer layer: RMS norm, gated feed-forward, no experts, nothing
    /// remote.
    pub open spec fn plain(self) -> bool {
        &&& self.norm_type == NormType::RmsNorm
        &&& self.ffn_type == FfnType::Gated
        &&& !self.has_moe
        &&& !self.ffn_is_remote
    }

    /// Every projection has a format that the device-resident path takes.
    pub open spec fn device_weights(self) -> bool {
        forall|i: int| 0 <= i < 7 ==> device_format((#[trigger] self.weights()[i]).format)
    }

    /// Every projection has a format that the packed-input kernels take.
    pub open spec fn mmvq_weights(self) -> bool {
        forall|i: int| 0 <= i < 7 ==> mmvq_format((#[trigger] self.weights()[i]).format)
    }

    /// Can be captured in a graph beside `first`: the launch arguments that a graph
    /// bakes in are the same for both.
    pub open spec fn captures_with(self, first: FullPipelineLayer) -> bool {
        &&& self.plain()
        &&& !self.has_v_norm
        &&& self.mmvq_weights()
        &&& self.head_dim == first.head_dim
        &&& self.num_q_heads == first.num_q_heads
        &&& self.num_kv_heads == first.num_kv_heads
        &&& self.activation == first.activation
        &&& self.has_post_norms == first.has_post_norms
    }

    pub fn is_plain(&self) -> (r: bool)
        ensures
            r == self.plain(),
            r <==> self.norm_type == NormType::RmsNorm && self.ffn_type == FfnType::Gated && !(
            self.has_moe || self.ffn_is_remote),
    {
        self.norm_type == NormType::RmsNorm && self.ffn_type == FfnType::Gated && !self.has_moe
            && !self.ffn_is_remote
    }
}

fn is_mmvq_format(f: QuantFormat) -> (r: bool)
    ensures
        r == mmvq_format(f),
        r <==> f == QuantFormat::Q4_K || f == QuantFormat::Q6_K,
{
    f == QuantFormat::Q4_K || f == QuantFormat::Q6_K
}

fn is_device_format(f: QuantFormat) -> (r: bool)
    ensures
        r == device_format(f),
        r <==> f == QuantFormat::Q4_K || f == QuantFormat::Q4_KF || f == QuantFormat::Q6_K,
{
    f == QuantFormat::Q4_K || f == QuantFormat::Q4_KF || f == QuantFormat::Q6_K
}

/// Whether every projection of the layer can stay on the device.
pub fn layer_supports_device_path(layer: &FullPipelineLayer) -> (r: bool)
    ensures
        r == layer.device_weights(),
{
    let r = is_device_format(layer.wq.format) && is_device_format(layer.wk.format)
        && is_device_format(layer.wv.format) && is_device_format(layer.wo.format)
        && is_device_format(layer.gate.format) && is_device_format(layer.up.format)
        && is_device_format(layer.down.format);
    proof {
        let w = layer.weights();
        assert(w[0] == layer.wq && w[1] == layer.wk && w[2] == layer.wv && w[3] == layer.wo && w[4]
            == layer.gate && w[5] == layer.up && w[6] == layer.down);
    }
    r
}

/// Whether every projection of the layer has a packed-input kernel.
pub fn layer_supports_mmvq(layer: &FullPipelineLayer) -> (r: bool)
    ensures
        r == layer.mmvq_weights(),
{
    let r = is_mmvq_format(layer.wq.format) && is_mmvq_format(layer.wk.format) && is_mmvq_format(
        layer.wv.format,
    ) && is_mmvq_format(layer.wo.format) && is_mmvq_format(layer.gate.format) && is_mmvq_format(
        layer.up.format,
    ) && is_mmvq_format(layer.down.format);
    proof {
        let w = layer.weights();
        assert(w[0] == layer.wq && w[1] == layer.wk && w[2] == layer.wv && w[3] == layer.wo && w[4]
            == layer.gate && w[5] == layer.up && w[6] == layer.down);
    }
    r
}

/// All layers can take the device-resident decode path.
pub open spec fn all_device(layers: Seq<FullPipelineLayer>) -> bool {
    forall|i: int|
        0 <= i < layers.len() ==> (#[trigger] layers[i]).plain() && layers[i].device_weights()
}

/// All layers can take the batched path.
pub open spec fn all_batchable(layers: Seq<FullPipelineLayer>) -> bool {
    forall|i: int|
        0 <= i < layers.len() ==> (#[trigger] layers[i]).plain() && layers[i].mmvq_weights()
}

/// The layers can be captured in one graph.
pub open spec fn all_capturable(layers: Seq<FullPipelineLayer>) -> bool {
    layers.len() > 0 && forall|i: int|
        0 <= i < layers.len() ==> (#[trigger] layers[i]).captures_with(layers[0])
}

/// Whether the device-resident decode path takes these layers.
pub fn decode_device_supports_layers(layers: &[FullPipelineLayer]) -> (r: bool)
    ensures
        r == all_device(layers@),
{
    let mut i: usize = 0;
    while i < layers.len()
        invariant
            i <= layers@.len(),
            forall|k: int|
                0 <= k < i ==> (#[trigger] layers@[k]).plain() && layers@[k].device_weights(),
        decreases layers@.len() - i,
    {
        let layer = layers[i];
        if !layer.is_plain() || !layer_supports_device_path(&layer) {
            return false;
        }
        i = i + 1;
    }
    true
}

/// Whether the batched path takes these layers.
pub fn batched_supports_layers(layers: &[FullPipelineLayer]) -> (r: bool)
    ensures
        r == all_batchable(layers@),
{
    let mut i: usize = 0;
    while i < layers.len()
        invariant
            i <= layers@.len(),
            forall|k: int|
                0 <= k < i ==> (#[trigger] layers@[k]).plain() && layers@[k].mmvq_weights(),
        decreases layers@.len() - i,
    {
        let layer = layers[i];
        if !layer.is_plain() || !layer_supports_mmvq(&layer) {
            return false;
        }
        i = i + 1;
    }
    true
}

/// Whether a graph can be captured for these layers.
pub fn decode_graph_supports_layers(layers: &[FullPipelineLayer]) -> (r: bool)
    ensures
        r == all_capturable(layers@),
{
    if layers.len() == 0 {
        return false;
    }
    let first = layers[0];
    let mut i: usize = 0;
    while i < layers.len()
        invariant
            i <= layers@.len(),
            layers@.len() > 0,
            first == layers@[0],
            forall|k: int| 0 <= k < i ==> (#[trigger] layers@[k]).captures_with(layers@[0]),
        decreases layers@.len() - i,
    {
        let l = layers[i];
        if !l.is_plain() || l.has_v_norm || !layer_supports_mmvq(&l) || l.head_dim != first.head_dim
            || l.num_q_heads != first.num_q_heads || l.num_kv_heads != first.num_kv_heads
            || l.activation != first.activation || l.has_post_norms != first.has_post_norms {
            return false;
        }
        i = i + 1;
    }
    true
}

/// Layers that a graph can hold are taken by the batched path, and those by the
/// device-resident path.
pub proof fn law_paths_nest(layers: Seq<FullPipelineLayer>)
    ensures
        all_capturable(layers) ==> all_batchable(layers),
        all_batchable(layers) ==> all_device(layers),
{
    assert forall|i: int| 0 <= i < layers.len() && (#[trigger] layers[i]).mmvq_weights() implies
        layers[i].device_weights() by {
        let l = layers[i];
        assert forall|j: int| 0 <= j < 7 implies device_format(
            (#[trigger] l.weights()[j]).format,
        ) by {}
    }
}

/// The dimensions that a layer is run with: its own, or the caller's where those are
/// larger.
#[derive(Clone, Copy, Debug, PartialEq, Eq, Structural)]
pub struct LayerDims {
    pub head_dim: usize,
    pub num_q_heads: usize,
    pub num_kv_heads: usize,
    pub q_dim: usize,
    pub kv_dim: usize,
}

/// The caller's dimensions of one decode or prefill call.
#[derive(Clone, Copy, Debug, PartialEq, Eq, Structural)]
pub struct CallDims {
    pub hidden: usize,
    pub inter: usize,
    pub q_dim: usize,
    pub kv_dim: usize,
    pub num_q_heads: usize,
    pub num_kv_heads: usize,
    pub head_dim: usize,
    pub rope_base_bits: u32,
}

impl CallDims {
    pub open spec fn head_dim_for(self, l: FullPipelineLayer) -> int {
        max_int(l.head_dim as int, self.head_dim as int)
    }

    pub open spec fn q_heads_for(self, l: FullPipelineLayer) -> int {
        max_int(l.num_q_heads as int, self.num_q_heads as int)
    }

    pub open spec fn kv_heads_for(self, l: FullPipelineLayer) -> int {
        max_int(l.num_kv_heads as int, self.num_kv_heads as int)
    }

    /// The widths of the layer's query and key rows can be held in a `usize`.
    pub open spec fn widths_fit(self, l: FullPipelineLayer) -> bool {
        &&& self.q_heads_for(l) * self.head_dim_for(l) <= usize::MAX
        &&& self.kv_heads_for(l) * self.head_dim_for(l) <= usize::MAX
    }

    /// The dimensions that `l` is run with.
    pub open spec fn dims_for(self, l: FullPipelineLayer) -> LayerDims {
        LayerDims {
            head_dim: self.head_dim_for(l) as usize,
            num_q_heads: self.q_heads_for(l) as usize,
            num_kv_heads: self.kv_heads_for(l) as usize,
            q_dim: (self.q_heads_for(l) * self.head_dim_for(l)) as usize,
            kv_dim: (self.kv_heads_for(l) * self.head_dim_for(l)) as usize,
        }
    }

    /// The rotary base that `l` is run with: its own unless that is zero.
    pub open spec fn rope_base_for(self, l: FullPipelineLayer) -> u32 {
        if zero_bits(l.rope_base_bits) {
            self.rope_base_bits
        } else {
            l.rope_base_bits
        }
    }

    pub fn layer_dims(&self, l: &FullPipelineLayer) -> (d: LayerDims)
        requires
            self.widths_fit(*l),
        ensures
            d == self.dims_for(*l),
            d.q_dim == d.num_q_heads * d.head_dim,
            d.kv_dim == d.num_kv_heads * d.head_dim,
            d.head_dim >= l.head_dim && d.head_dim >= self.head_dim,
            d.head_dim == l.head_dim || d.head_dim == self.head_dim,
            d.num_q_heads >= l.num_q_heads && d.num_q_heads >= self.num_q_heads,
            d.num_q_heads == l.num_q_heads || d.num_q_heads == self.num_q_heads,
            d.num_kv_heads >= l.num_kv_heads && d.num_kv_heads >= self.num_kv_heads,
            d.num_kv_heads == l.num_kv_heads || d.num_kv_heads == self.num_kv_heads,
    {
        let head_dim: usize = max_usize(l.head_dim, self.head_dim);
        let num_q_heads: usize = max_usize(l.num_q_heads, self.num_q_heads);
        let num_kv_heads: usize = max_usize(l.num_kv_heads, self.num_kv_heads);
        LayerDims {
            head_dim,
            num_q_heads,
            num_kv_heads,
            q_dim: num_q_heads * head_dim,
            kv_dim: num_kv_heads * head_dim,
        }
    }

    pub fn layer_rope_base(&self, l: &FullPipelineLayer) -> (bits: u32)
        ensures
            bits == self.rope_base_for(*l),
            l.rope_base_bits == 0 || l.rope_base_bits == 0x8000_0000 ==> bits
                == self.rope_base_bits,
            !(l.rope_base_bits == 0 || l.rope_base_bits == 0x8000_0000) ==> bits
                == l.rope_base_bits,
    {
        if l.rope_base_bits == 0 || l.rope_base_bits == NEG_ZERO_BITS {
            self.rope_base_bits
        } else {
            l.rope_base_bits
        }
    }
}

/// Which norm weight an operation reads.
#[derive(Clone, Copy, Debug, PartialEq, Eq, Structural)]
pub enum NormRef {
    Input,
    PostAttn,
    PreFfn,
    PostFfn,
    /// No weight: the row is only divided by its root mean square.
    Unit,
}

impl FullPipelineLayer {
    /// The norm weight in front of the feed-forward part.
    pub open spec fn ffn_norm(self) -> NormRef {
        if self.has_post_norms && self.pre_ffn_norm {
            NormRef::PreFfn
        } else {
            NormRef::PostAttn
        }
    }

    /// The norm weight behind the feed-forward part, for a layer with post-norms.
    pub open spec fn ffn_post_norm(self) -> NormRef {
        match self.post_ffn_norm {
            Some(len) => if len > 0 {
                NormRef::PostFfn
            } else {
                NormRef::Unit
            },
            None => NormRef::Unit,
        }
    }

    /// Whether the layer's output is multiplied by its scalar.
    pub open spec fn scaled(self) -> bool {
        !zero_bits(self.layer_scalar_bits) && self.layer_scalar_bits != ONE_BITS
    }

    /// Queries and keys are normalised only where the layer has a weight for both.
    pub open spec fn qk_normed(self) -> bool {
        self.q_norm_weight && self.k_norm_weight
    }

    pub fn ffn_norm_ref(&self) -> (r: NormRef)
        ensures
            r == self.ffn_norm(),
            self.has_post_norms && self.pre_ffn_norm ==> r == NormRef::PreFfn,
            !(self.has_post_norms && self.pre_ffn_norm) ==> r == NormRef::PostAttn,
    {
        if self.has_post_norms && self.pre_ffn_norm {
            NormRef::PreFfn
        } else {
            NormRef::PostAttn
        }
    }

    pub fn ffn_post_norm_ref(&self) -> (r: NormRef)
        ensures
            r == self.ffn_post_norm(),
            r == NormRef::PostFfn <==> (self.post_ffn_norm matches Some(len) && len != 0),
            r == NormRef::Unit <==> (self.post_ffn_norm is None || self.post_ffn_norm == Some(
                0usize,
            )),
    {
        match self.post_ffn_norm {
            Some(len) => if len > 0 {
                NormRef::PostFfn
            } else {
                NormRef::Unit
            },
            None => NormRef::Unit,
        }
    }

    pub fn is_scaled(&self) -> (r: bool)
        ensures
            r == self.scaled(),
            r <==> self.layer_scalar_bits != 0 && self.layer_scalar_bits != 0x8000_0000
                && self.layer_scalar_bits != 0x3f80_0000,
    {
        self.layer_scalar_bits != 0 && self.layer_scalar_bits != NEG_ZERO_BITS
            && self.layer_scalar_bits != ONE_BITS
    }
}

/// A layer stays on the device just where each of its seven projections has one of the three
/// formats that it takes, and it has packed-input kernels throughout just where each has one of
/// the two formats that those take.
pub proof fn law_all_seven_weights_count(l: FullPipelineLayer)
    ensures
        l.mmvq_weights() <==> {
            &&& l.wq.format == QuantFormat::Q4_K || l.wq.format == QuantFormat::Q6_K
            &&& l.wk.format == QuantFormat::Q4_K || l.wk.format == QuantFormat::Q6_K
            &&& l.wv.format == QuantFormat::Q4_K || l.wv.format == QuantFormat::Q6_K
            &&& l.wo.format == QuantFormat::Q4_K || l.wo.format == QuantFormat::Q6_K
            &&& l.gate.format == QuantFormat::Q4_K || l.gate.format == QuantFormat::Q6_K
            &&& l.up.format == QuantFormat::Q4_K || l.up.format == QuantFormat::Q6_K
            &&& l.down.format == QuantFormat::Q4_K || l.down.format == QuantFormat::Q6_K
        },
        l.device_weights() && !l.mmvq_weights() ==> (l.wq.format == QuantFormat::Q4_KF || l.wk.format
            == QuantFormat::Q4_KF || l.wv.format == QuantFormat::Q4_KF || l.wo.format
            == QuantFormat::Q4_KF || l.gate.format == QuantFormat::Q4_KF || l.up.format
            == QuantFormat::Q4_KF || l.down.format == QuantFormat::Q4_KF),
        l.mmvq_weights() ==> l.device_weights(),
        l.wq.format == QuantFormat::Q4_KF && l.wk.format == QuantFormat::Q4_KF && l.wv.format
            == QuantFormat::Q4_KF && l.wo.format == QuantFormat::Q4_KF && l.gate.format
            == QuantFormat::Q4_KF && l.up.format == QuantFormat::Q4_KF && l.down.format
            == QuantFormat::Q4_KF ==> l.device_weights(),
{
    let w = l.weights();
    assert(w[0] == l.wq && w[1] == l.wk && w[2] == l.wv && w[3] == l.wo && w[4] == l.gate && w[5]
        == l.up && w[6] == l.down);
}

/// Experts, a remote part, or another kind of norm or feed-forward part keep a layer from being
/// plain, and nothing else does.
pub proof fn law_plain_layers(l: FullPipelineLayer)
    ensures
        !l.plain() <==> (l.norm_type == NormType::LayerNorm || l.ffn_type == FfnType::Standard
            || l.has_moe || l.ffn_is_remote),
{
}

/// One layer that is not fit keeps all of them from a path.
pub proof fn law_every_layer_counts(layers: Seq<FullPipelineLayer>, i: int)
    requires
        0 <= i < layers.len(),
    ensures
        !layers[i].plain() ==> !all_device(layers) && !all_batchable(layers) && !all_capturable(
            layers,
        ),
        !layers[i].device_weights() ==> !all_device(layers),
        !layers[i].mmvq_weights() ==> !all_batchable(layers) && !all_capturable(layers),
        layers[i].has_v_norm ==> !all_capturable(layers),
{
}

/// Layers that share a graph share what the graph bakes in, and are each fit for it.
pub proof fn law_captured_layers_are_alike(layers: Seq<FullPipelineLayer>, i: int, j: int)
    requires
        all_capturable(layers),
        0 <= i < layers.len(),
        0 <= j < layers.len(),
    ensures
        layers[i].head_dim == layers[j].head_dim,
        layers[i].num_q_heads == layers[j].num_q_heads,
        layers[i].num_kv_heads == layers[j].num_kv_heads,
        layers[i].activation == layers[j].activation,
        layers[i].has_post_norms == layers[j].has_post_norms,
        layers[i].plain() && !layers[i].has_v_norm && layers[i].mmvq_weights(),
{
    assert(layers[i].captures_with(layers[0]));
    assert(layers[j].captures_with(layers[0]));
}

/// Layers that are each fit for a graph and alike in what it bakes in can share one.
pub proof fn law_alike_layers_are_captured(layers: Seq<FullPipelineLayer>)
    requires
        layers.len() > 0,
        forall|i: int|
            0 <= i < layers.len() ==> (#[trigger] layers[i]).plain() && !layers[i].has_v_norm
                && layers[i].mmvq_weights(),
        forall|i: int|
            0 <= i < layers.len() ==> (#[trigger] layers[i]).head_dim == layers[0].head_dim
                && layers[i].num_q_heads == layers[0].num_q_heads && layers[i].num_kv_heads
                == layers[0].num_kv_heads && layers[i].activation == layers[0].activation
                && layers[i].has_post_norms == layers[0].has_post_norms,
    ensures
        all_capturable(layers),
{
}

/// A layer on its own can be captured just if it is plain, has no norm on its values and has
/// packed-input kernels throughout. No layers at all cannot be.
pub proof fn law_single_layer_capture(l: FullPipelineLayer)
    ensures
        all_capturable(seq![l]) <==> l.plain() && !l.has_v_norm && l.mmvq_weights(),
        all_batchable(seq![l]) <==> l.plain() && l.mmvq_weights(),
        all_device(seq![l]) <==> l.plain() && l.device_weights(),
        !all_capturable(Seq::<FullPipelineLayer>::empty()),
{
    let one = seq![l];
    assert(one[0] == l);
}

/// A call's dimensions count where they are the larger ones, and each number on its own.
pub proof fn law_dimensions_are_the_larger_ones(call: CallDims, l: FullPipelineLayer)
    requires
        call.widths_fit(l),
    ensures
        ({
            let d = call.dims_for(l);
            &&& l.head_dim >= call.head_dim ==> d.head_dim == l.head_dim
            &&& l.head_dim <= call.head_dim ==> d.head_dim == call.head_dim
            &&& l.num_q_heads >= call.num_q_heads ==> d.num_q_heads == l.num_q_heads
            &&& l.num_q_heads <= call.num_q_heads ==> d.num_q_heads == call.num_q_heads
            &&& l.num_kv_heads >= call.num_kv_heads ==> d.num_kv_heads == l.num_kv_heads
            &&& l.num_kv_heads <= call.num_kv_heads ==> d.num_kv_heads == call.num_kv_heads
            &&& d.q_dim == d.num_q_heads * d.head_dim
            &&& d.kv_dim == d.num_kv_heads * d.head_dim
        }),
{
    assert(0 <= call.q_heads_for(l) * call.head_dim_for(l) && 0 <= call.kv_heads_for(l)
        * call.head_dim_for(l)) by (nonlinear_arith)
        requires
            0 <= call.q_heads_for(l),
            0 <= call.kv_heads_for(l),
            0 <= call.head_dim_for(l),
    ;
}

/// The norm in front of the feed-forward part reads its own weight just where a layer with
/// post-norms has one; the weight behind attention stands in everywhere else. The norm behind
/// reads a weight just where there is one with elements.
pub proof fn law_norm_weights(l: FullPipelineLayer)
    ensures
        l.ffn_norm() == NormRef::PreFfn <==> l.has_post_norms && l.pre_ffn_norm,
        l.ffn_norm() == NormRef::PostAttn <==> !l.has_post_norms || !l.pre_ffn_norm,
        l.ffn_post_norm() == NormRef::PostFfn <==> l.post_ffn_norm is Some && l.post_ffn_norm
            != Some(0usize),
        l.ffn_post_norm() == NormRef::Unit <==> l.post_ffn_norm is None || l.post_ffn_norm == Some(
            0usize,
        ),
        l.scaled() <==> !(l.layer_scalar_bits == 0 || l.layer_scalar_bits == 0x8000_0000
            || l.layer_scalar_bits == 0x3f80_0000),
        l.qk_normed() <==> !(!l.q_norm_weight || !l.k_norm_weight),
{
}

} // verus!
