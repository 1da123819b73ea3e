//! The settings that an attention operation of a program is launched with.

use vstd::prelude::*;

use crate::attn::FusedDecodeAttentionOpts;
use crate::program::{AttnCall, AttnKind};

verus! {

/// The position that the host knows of. A kernel whose position the device holds does not
/// go by it.
pub open spec fn launch_pos(kind: AttnKind) -> usize {
    match kind {
        AttnKind::Decode { pos } => pos,
        AttnKind::DecodeThroughHost { pos } => pos,
        AttnKind::DecodeAtDevicePos | AttnKind::Run { .. } => 0,
        AttnKind::RunAtDevicePos { base_pos } => base_pos,
        AttnKind::TreeAtDevicePos { base_pos } => base_pos,
    }
}

/// The settings of a launch.
pub open spec fn launch_opts(kind: AttnKind, call: AttnCall) -> FusedDecodeAttentionOpts {
    FusedDecodeAttentionOpts {
        num_q_heads: call.num_q_heads,
        num_kv_heads: call.num_kv_heads,
        head_dim: call.head_dim,
        pos: launch_pos(kind),
        max_seq: call.max_seq,
        rotary_dim: call.rotary_dim,
        rope_base_bits: call.rope_base_bits,
        eps_bits: call.eps_bits,
        qk_norm_offset_bits: call.qk_norm_offset_bits,
        attn_scale_bits: call.attn_scale_bits,
        softcap_bits: 0,
    }
}

/// The settings with which an attention operation is launched.
pub fn attn_opts(kind: &AttnKind, call: &AttnCall) -> (o: FusedDecodeAttentionOpts)
    ensures
        o == launch_opts(*kind, *call),
        o.num_q_heads == call.num_q_heads && o.num_kv_heads == call.num_kv_heads,
        o.head_dim == call.head_dim && o.max_seq == call.max_seq && o.rotary_dim == call.rotary_dim,
        o.rope_base_bits == call.rope_base_bits && o.eps_bits == call.eps_bits,
        o.qk_norm_offset_bits == call.qk_norm_offset_bits,
        o.attn_scale_bits == call.attn_scale_bits && o.softcap_bits == 0,
        kind matches AttnKind::Decode { pos } ==> o.pos == pos,
        kind matches AttnKind::DecodeThroughHost { pos } ==> o.pos == pos,
        kind matches AttnKind::RunAtDevicePos { base_pos } ==> o.pos == base_pos,
        kind matches AttnKind::TreeAtDevicePos { base_pos } ==> o.pos == base_pos,
        kind is DecodeAtDevicePos || kind is Run ==> o.pos == 0,
{
    let pos: usize = match *kind {
        AttnKind::Decode { pos } => pos,
        AttnKind::DecodeThroughHost { pos } => pos,
        AttnKind::DecodeAtDevicePos | AttnKind::Run { .. } => 0,
        AttnKind::RunAtDevicePos { base_pos } => base_pos,
        AttnKind::TreeAtDevicePos { base_pos } => base_pos,
    };
    FusedDecodeAttentionOpts {
        num_q_heads: call.num_q_heads,
        num_kv_heads: call.num_kv_heads,
        head_dim: call.head_dim,
        pos,
        max_seq: call.max_seq,
        rotary_dim: call.rotary_dim,
        rope_base_bits: call.rope_base_bits,
        eps_bits: call.eps_bits,
        qk_norm_offset_bits: call.qk_norm_offset_bits,
        attn_scale_bits: call.attn_scale_bits,
        softcap_bits: 0,
    }
}

/// A launch gets the settings of its operation: calls that differ in anything but the position
/// are launched differently, and one that differs only in its kind is launched alike but for the
/// position. There is no soft cap.
pub proof fn law_launch_gets_the_call(kind: AttnKind, other: AttnKind, a: AttnCall, b: AttnCall)
    ensures
        ({
            let x = launch_opts(kind, a);
            let y = launch_opts(kind, b);
            &&& x == y <==> a == (AttnCall { qk_norm: a.qk_norm, ..b })
            &&& launch_opts(other, a) == (FusedDecodeAttentionOpts {
                pos: launch_opts(other, a).pos,
                ..x
            })
            &&& x.q_dim() == a.num_q_heads * a.head_dim
            &&& x.kv_dim() == a.num_kv_heads * a.head_dim
            &&& x.max_seq == a.max_seq && x.rotary_dim == a.rotary_dim
            &&& x.rope_base_bits == a.rope_base_bits && x.eps_bits == a.eps_bits
            &&& x.attn_scale_bits == a.attn_scale_bits
            &&& x.qk_norm_offset_bits == a.qk_norm_offset_bits
            &&& x.softcap_bits == 0
        }),
{
}

/// A launch goes by the position that its operation names; a run that starts at a position of
/// the host's, and a step whose position the device holds, name none.
pub proof fn law_launch_position(pos: usize)
    ensures
        launch_pos(AttnKind::Decode { pos }) == pos,
        launch_pos(AttnKind::DecodeThroughHost { pos }) == pos,
        launch_pos(AttnKind::RunAtDevicePos { base_pos: pos }) == pos,
        launch_pos(AttnKind::TreeAtDevicePos { base_pos: pos }) == pos,
        launch_pos(AttnKind::Run { base_pos: pos }) == 0,
        launch_pos(AttnKind::DecodeAtDevicePos) == 0,
{
}

} // verus!
