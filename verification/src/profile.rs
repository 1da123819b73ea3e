//! Time spent in the parts of a decode step.

use vstd::prelude::*;

use crate::program::{Buf, DeviceOp, WeightRef};

verus! {

/// Nanoseconds in the longest time span that the clock can count.
pub open spec fn longest() -> int {
    u64::MAX * 1_000_000_000 + 999_999_999
}

/// The parts that are timed.
#[derive(Clone, Copy, Debug, PartialEq, Eq, Structural)]
pub enum ProfilePart {
    NormCpu,
    Htod,
    ProjQkv,
    AttnCall,
    ProjWo,
    DtohAttnDelta,
    ProjGateUp,
    DtohGateUp,
    ProjDown,
    DtohFfnDelta,
    ResidualCpu,
}

/// Nanoseconds spent in each part.
#[derive(Clone, Copy, Debug, PartialEq, Eq, Structural)]
pub struct DecodeProfile {
    pub norm_cpu: u128,
    pub htod: u128,
    pub proj_qkv: u128,
    pub attn_call: u128,
    pub proj_wo: u128,
    pub dtoh_attn_delta: u128,
    pub proj_gate_up: u128,
    pub dtoh_gate_up: u128,
    pub proj_down: u128,
    pub dtoh_ffn_delta: u128,
    pub residual_cpu: u128,
}

impl Default for DecodeProfile {
    fn default() -> (p: DecodeProfile)
        ensures
            forall|part: ProfilePart| p.of(part) == 0,
    {
        DecodeProfile {
            norm_cpu: 0,
            htod: 0,
            proj_qkv: 0,
            attn_call: 0,
            proj_wo: 0,
            dtoh_attn_delta: 0,
            proj_gate_up: 0,
            dtoh_gate_up: 0,
            proj_down: 0,
            dtoh_ffn_delta: 0,
            residual_cpu: 0,
        }
    }
}

impl DecodeProfile {
    /// Time spent in one part.
    pub open spec fn of(self, part: ProfilePart) -> u128 {
        match part {
            ProfilePart::NormCpu => self.norm_cpu,
            ProfilePart::Htod => self.htod,
            ProfilePart::ProjQkv => self.proj_qkv,
            ProfilePart::AttnCall => self.attn_call,
            ProfilePart::ProjWo => self.proj_wo,
            ProfilePart::DtohAttnDelta => self.dtoh_attn_delta,
            ProfilePart::ProjGateUp => self.proj_gate_up,
            ProfilePart::DtohGateUp => self.dtoh_gate_up,
            ProfilePart::ProjDown => self.proj_down,
            ProfilePart::DtohFfnDelta => self.dtoh_ffn_delta,
            ProfilePart::ResidualCpu => self.residual_cpu,
        }
    }

    /// Time spent in all parts together.
    pub open spec fn sum(self) -> int {
        self.norm_cpu + self.htod + self.proj_qkv + self.attn_call + self.proj_wo
            + self.dtoh_attn_delta + self.proj_gate_up + self.dtoh_gate_up + self.proj_down
            + self.dtoh_ffn_delta + self.residual_cpu
    }

    /// The time of the whole step.
    pub fn total(&self) -> (t: u128)
        requires
            self.sum() <= longest(),
        ensures
            t == self.sum(),
    {
        self.norm_cpu + self.htod + self.proj_qkv + self.attn_call + self.proj_wo
            + self.dtoh_attn_delta + self.proj_gate_up + self.dtoh_gate_up + self.proj_down
            + self.dtoh_ffn_delta + self.residual_cpu
    }

    /// Charges time to a part.
    pub fn charge(&mut self, part: ProfilePart, nanos: u128)
        requires
            old(self).of(part) + nanos <= longest(),
        ensures
            forall|p: ProfilePart|
                final(self).of(p) == if p == part {
                    old(self).of(p) + nanos
                } else {
                    old(self).of(p) as int
                },
            final(self).sum() == old(self).sum() + nanos,
    {
        match part {
            ProfilePart::NormCpu => {
                self.norm_cpu = self.norm_cpu + nanos;
            },
            ProfilePart::Htod => {
                self.htod = self.htod + nanos;
            },
            ProfilePart::ProjQkv => {
                self.proj_qkv = self.proj_qkv + nanos;
            },
            ProfilePart::AttnCall => {
                self.attn_call = self.attn_call + nanos;
            },
            ProfilePart::ProjWo => {
                self.proj_wo = self.proj_wo + nanos;
            },
            ProfilePart::DtohAttnDelta => {
                self.dtoh_attn_delta = self.dtoh_attn_delta + nanos;
            },
            ProfilePart::ProjGateUp => {
                self.proj_gate_up = self.proj_gate_up + nanos;
            },
            ProfilePart::DtohGateUp => {
                self.dtoh_gate_up = self.dtoh_gate_up + nanos;
            },
            ProfilePart::ProjDown => {
                self.proj_down = self.proj_down + nanos;
            },
            ProfilePart::DtohFfnDelta => {
                self.dtoh_ffn_delta = self.dtoh_ffn_delta + nanos;
            },
            ProfilePart::ResidualCpu => {
                self.residual_cpu = self.residual_cpu + nanos;
            },
        }
    }
}

/// The part that an operation of a decode step is charged to. Packing is charged to none: the
/// clock starts behind it.
pub open spec fn part(op: DeviceOp) -> Option<ProfilePart> {
    match op {
        DeviceOp::Upload { .. } => Some(ProfilePart::Htod),
        DeviceOp::RmsNorm { dst, .. } => if dst == Buf::AttnNormed || dst == Buf::FfnNormed {
            Some(ProfilePart::ResidualCpu)
        } else {
            Some(ProfilePart::NormCpu)
        },
        DeviceOp::Project { weight, .. } => match weight {
            WeightRef::Wq | WeightRef::Wk | WeightRef::Wv => Some(ProfilePart::ProjQkv),
            WeightRef::Wo => Some(ProfilePart::ProjWo),
            WeightRef::Gate | WeightRef::Up => Some(ProfilePart::ProjGateUp),
            WeightRef::Down => Some(ProfilePart::ProjDown),
        },
        DeviceOp::Attention { .. } => Some(ProfilePart::AttnCall),
        DeviceOp::GateUp { .. } => Some(ProfilePart::NormCpu),
        DeviceOp::Add { .. } => Some(ProfilePart::ResidualCpu),
        DeviceOp::NormAdd { .. } => Some(ProfilePart::ResidualCpu),
        DeviceOp::Scale { .. } => Some(ProfilePart::ResidualCpu),
        DeviceOp::Download { .. } => Some(ProfilePart::DtohFfnDelta),
        _ => None,
    }
}

pub fn part_of(op: &DeviceOp) -> (p: Option<ProfilePart>)
    ensures
        p == part(*op),
{
    match *op {
        DeviceOp::Upload { .. } => Some(ProfilePart::Htod),
        DeviceOp::RmsNorm { dst, .. } => if dst == Buf::AttnNormed || dst == Buf::FfnNormed {
            Some(ProfilePart::ResidualCpu)
        } else {
            Some(ProfilePart::NormCpu)
        },
        DeviceOp::Project { weight, .. } => match weight {
            WeightRef::Wq | WeightRef::Wk | WeightRef::Wv => Some(ProfilePart::ProjQkv),
            WeightRef::Wo => Some(ProfilePart::ProjWo),
            WeightRef::Gate | WeightRef::Up => Some(ProfilePart::ProjGateUp),
            WeightRef::Down => Some(ProfilePart::ProjDown),
        },
        DeviceOp::Attention { .. } => Some(ProfilePart::AttnCall),
        DeviceOp::GateUp { .. } => Some(ProfilePart::NormCpu),
        DeviceOp::Add { .. } => Some(ProfilePart::ResidualCpu),
        DeviceOp::NormAdd { .. } => Some(ProfilePart::ResidualCpu),
        DeviceOp::Scale { .. } => Some(ProfilePart::ResidualCpu),
        DeviceOp::Download { .. } => Some(ProfilePart::DtohFfnDelta),
        _ => None,
    }
}

/// Projections are charged by the part of the layer that they belong to, and every one of them
/// to a part of its own kind: the three in front of attention together, the two in front of the
/// activation together, and each of the others alone.
pub proof fn law_projections_are_charged(op: DeviceOp)
    requires
        op is Project,
    ensures
        part(op) == Some(ProfilePart::ProjQkv) <==> (op->Project_weight == WeightRef::Wq
            || op->Project_weight == WeightRef::Wk || op->Project_weight == WeightRef::Wv),
        part(op) == Some(ProfilePart::ProjWo) <==> op->Project_weight == WeightRef::Wo,
        part(op) == Some(ProfilePart::ProjGateUp) <==> (op->Project_weight == WeightRef::Gate
            || op->Project_weight == WeightRef::Up),
        part(op) == Some(ProfilePart::ProjDown) <==> op->Project_weight == WeightRef::Down,
{
}

/// What is not a projection: copies to the host's charge, attention to its own, norms in front
/// of a half and the activation to the norms, everything that ends in the residual to it.
/// Packing and the marks of a program are charged to nothing.
pub proof fn law_other_operations_are_charged(op: DeviceOp)
    requires
        !(op is Project),
    ensures
        op is Upload <==> part(op) == Some(ProfilePart::Htod),
        op is Download <==> part(op) == Some(ProfilePart::DtohFfnDelta),
        op is Attention <==> part(op) == Some(ProfilePart::AttnCall),
        op is GateUp ==> part(op) == Some(ProfilePart::NormCpu),
        op is Add || op is NormAdd || op is Scale ==> part(op) == Some(ProfilePart::ResidualCpu),
        op is RmsNorm ==> (part(op) == Some(ProfilePart::ResidualCpu) <==> (op->RmsNorm_dst
            == Buf::AttnNormed || op->RmsNorm_dst == Buf::FfnNormed)),
        op is RmsNorm ==> (part(op) == Some(ProfilePart::NormCpu) <==> !(op->RmsNorm_dst
            == Buf::AttnNormed || op->RmsNorm_dst == Buf::FfnNormed)),
        op is QuantizeQ8 || op is BeginLayer || op is Reserve || op is CopyRange || op is HostProject
            || op is QkvRmsProj <==> part(op) is None,
{
}

/// Each part has a time of its own, and all of them make up the whole.
pub proof fn law_parts_have_their_own_time(p: DecodeProfile)
    ensures
        p.of(ProfilePart::NormCpu) == p.norm_cpu,
        p.of(ProfilePart::Htod) == p.htod,
        p.of(ProfilePart::ProjQkv) == p.proj_qkv,
        p.of(ProfilePart::AttnCall) == p.attn_call,
        p.of(ProfilePart::ProjWo) == p.proj_wo,
        p.of(ProfilePart::DtohAttnDelta) == p.dtoh_attn_delta,
        p.of(ProfilePart::ProjGateUp) == p.proj_gate_up,
        p.of(ProfilePart::DtohGateUp) == p.dtoh_gate_up,
        p.of(ProfilePart::ProjDown) == p.proj_down,
        p.of(ProfilePart::DtohFfnDelta) == p.dtoh_ffn_delta,
        p.of(ProfilePart::ResidualCpu) == p.residual_cpu,
        p.sum() == p.of(ProfilePart::NormCpu) + p.of(ProfilePart::Htod) + p.of(ProfilePart::ProjQkv)
            + p.of(ProfilePart::AttnCall) + p.of(ProfilePart::ProjWo) + p.of(
            ProfilePart::DtohAttnDelta,
        ) + p.of(ProfilePart::ProjGateUp) + p.of(ProfilePart::DtohGateUp) + p.of(
            ProfilePart::ProjDown,
        ) + p.of(ProfilePart::DtohFfnDelta) + p.of(ProfilePart::ResidualCpu),
{
}

} // verus!
