//! The backend: what it keeps on the device, and the checks in front of its calls.

use vstd::prelude::*;

use crate::device_cache::{DeviceCache, StateCache};
use crate::driver::{Driver, DriverInit, DriverPhase};
use crate::error::CudaInitError;
use crate::flags::{number_or, number_setting};
use crate::graph::{DecodeGraphState, Warmup};
use crate::keys::{DeviceBytesKey, DeviceStateKey};
use crate::kv_cache::KvCacheSlot;
use crate::qwen35_iso3::{IsoScratch, QuantSlab, QuantSlabs};
use crate::qwen35_kv::{KvSlab, KvSlabs};
use crate::spec_graph::{SpecGraphs, SpecScratchKey};
use crate::text::{dec, push_dec};

verus! {

/// What a backend can be asked for.
#[derive(Clone, Copy, Debug, PartialEq, Eq, Structural)]
pub enum Capability {
    Cuda,
    CudaOxide,
    F32Gemv,
    QuantMatVec,
    Q4VecMat,
    FlashAttentionV2,
    KvCompressionRotorQuant,
    DecodeToken,
    PrefillQ4,
    /// Anything else.
    Other,
}

/// The caches of uploaded weights.
#[derive(Clone, Copy, Debug, PartialEq, Eq, Structural)]
pub enum CacheName {
    Q4k,
    Q5k,
    Q8_0Bytes,
    Q8_0F32,
    Q6kF32,
    Q6kPacked,
    Q4kF32,
    Q4kF16,
    Q6kF16,
    F32Norm,
    F32Weight,
    F16F32,
    Qwen35State,
}

impl CacheName {
    /// What is said where a cache cannot be used any more.
    pub open spec fn poisoned_text(self) -> Seq<char> {
        match self {
            CacheName::Q4k => "q4k device cache poisoned"@,
            CacheName::Q5k => "q5k device cache poisoned"@,
            CacheName::Q8_0Bytes => "q8_0 byte device cache poisoned"@,
            CacheName::Q8_0F32 => "q8_0 device cache poisoned"@,
            CacheName::Q6kF32 => "q6k device cache poisoned"@,
            CacheName::Q6kPacked => "q6k packed cache poisoned"@,
            CacheName::Q4kF32 => "q4k f32 cache poisoned"@,
            CacheName::Q4kF16 => "q4k f16 cache poisoned"@,
            CacheName::Q6kF16 => "q6k f16 cache poisoned"@,
            CacheName::F32Norm => "f32 norm cache poisoned"@,
            CacheName::F32Weight => "f32 weight cache poisoned"@,
            CacheName::F16F32 => "f16 f32 cache poisoned"@,
            CacheName::Qwen35State => "qwen35 state device cache poisoned"@,
        }
    }

    pub fn poisoned(&self) -> (e: CudaInitError)
        ensures
            e.says(self.poisoned_text()),
            *self == CacheName::Q4k ==> e.says("q4k device cache poisoned"@),
            *self == CacheName::Q5k ==> e.says("q5k device cache poisoned"@),
            *self == CacheName::Q8_0Bytes ==> e.says("q8_0 byte device cache poisoned"@),
            *self == CacheName::Q8_0F32 ==> e.says("q8_0 device cache poisoned"@),
            *self == CacheName::Q6kF32 ==> e.says("q6k device cache poisoned"@),
            *self == CacheName::Q6kPacked ==> e.says("q6k packed cache poisoned"@),
            *self == CacheName::Q4kF32 ==> e.says("q4k f32 cache poisoned"@),
            *self == CacheName::Q4kF16 ==> e.says("q4k f16 cache poisoned"@),
            *self == CacheName::Q6kF16 ==> e.says("q6k f16 cache poisoned"@),
            *self == CacheName::F32Norm ==> e.says("f32 norm cache poisoned"@),
            *self == CacheName::F32Weight ==> e.says("f32 weight cache poisoned"@),
            *self == CacheName::F16F32 ==> e.says("f16 f32 cache poisoned"@),
            *self == CacheName::Qwen35State ==> e.says("qwen35 state device cache poisoned"@),
    {
        crate::error::refused(
            match self {
                CacheName::Q4k => "q4k device cache poisoned",
                CacheName::Q5k => "q5k device cache poisoned",
                CacheName::Q8_0Bytes => "q8_0 byte device cache poisoned",
                CacheName::Q8_0F32 => "q8_0 device cache poisoned",
                CacheName::Q6kF32 => "q6k device cache poisoned",
                CacheName::Q6kPacked => "q6k packed cache poisoned",
                CacheName::Q4kF32 => "q4k f32 cache poisoned",
                CacheName::Q4kF16 => "q4k f16 cache poisoned",
                CacheName::Q6kF16 => "q6k f16 cache poisoned",
                CacheName::F32Norm => "f32 norm cache poisoned",
                CacheName::F32Weight => "f32 weight cache poisoned",
                CacheName::F16F32 => "f16 f32 cache poisoned",
                CacheName::Qwen35State => "qwen35 state device cache poisoned",
            },
        )
    }
}

/// A backend. `P` are packed weights on the device, `W` weights and norms of single
/// precision, `H` weights of half precision, `S` state buffers.
#[derive(Debug)]
pub struct CudaBackend<P, W, H, S> {
    pub drv: Driver,
    pub kv_cache: KvCacheSlot,
    pub q4k_device_cache: DeviceCache<P>,
    pub q5k_device_cache: DeviceCache<P>,
    pub q8_0_byte_device_cache: DeviceCache<P>,
    pub q8_0_f32_device_cache: DeviceCache<W>,
    pub q6k_f32_device_cache: DeviceCache<W>,
    pub q6k_packed_device_cache: DeviceCache<P>,
    pub q4k_f32_device_cache: DeviceCache<W>,
    pub q4k_f16_device_cache: DeviceCache<H>,
    pub q6k_f16_device_cache: DeviceCache<H>,
    pub f32_norm_device_cache: DeviceCache<W>,
    pub f32_weight_device_cache: DeviceCache<W>,
    pub f16_f32_device_cache: DeviceCache<W>,
    pub qwen35_f32_state_cache: StateCache<S>,
    pub decode_graph: DecodeGraphState,
    pub spec_graphs: SpecGraphs,
    pub qwen35_kv_slab_cache: KvSlabs,
    pub qwen35_kv_slab_cache_quant: QuantSlabs,
}

impl<P, W, H, S> CudaBackend<P, W, H, S> {
    pub open spec fn wf(self) -> bool {
        &&& self.q4k_device_cache.wf()
        &&& self.q5k_device_cache.wf()
        &&& self.q8_0_byte_device_cache.wf()
        &&& self.q8_0_f32_device_cache.wf()
        &&& self.q6k_f32_device_cache.wf()
        &&& self.q6k_packed_device_cache.wf()
        &&& self.q4k_f32_device_cache.wf()
        &&& self.q4k_f16_device_cache.wf()
        &&& self.q6k_f16_device_cache.wf()
        &&& self.f32_norm_device_cache.wf()
        &&& self.f32_weight_device_cache.wf()
        &&& self.f16_f32_device_cache.wf()
        &&& self.qwen35_f32_state_cache.wf()
        &&& self.spec_graphs.wf()
    }

    /// Nothing has been uploaded, allocated or captured.
    pub open spec fn is_fresh(self) -> bool {
        &&& self.kv_cache.cache is None
        &&& self.q4k_device_cache@ == Map::<DeviceBytesKey, P>::empty()
        &&& self.q5k_device_cache@ == Map::<DeviceBytesKey, P>::empty()
        &&& self.q8_0_byte_device_cache@ == Map::<DeviceBytesKey, P>::empty()
        &&& self.q8_0_f32_device_cache@ == Map::<DeviceBytesKey, W>::empty()
        &&& self.q6k_f32_device_cache@ == Map::<DeviceBytesKey, W>::empty()
        &&& self.q6k_packed_device_cache@ == Map::<DeviceBytesKey, P>::empty()
        &&& self.q4k_f32_device_cache@ == Map::<DeviceBytesKey, W>::empty()
        &&& self.q4k_f16_device_cache@ == Map::<DeviceBytesKey, H>::empty()
        &&& self.q6k_f16_device_cache@ == Map::<DeviceBytesKey, H>::empty()
        &&& self.f32_norm_device_cache@ == Map::<DeviceBytesKey, W>::empty()
        &&& self.f32_weight_device_cache@ == Map::<DeviceBytesKey, W>::empty()
        &&& self.f16_f32_device_cache@ == Map::<DeviceBytesKey, W>::empty()
        &&& self.qwen35_f32_state_cache@ == Map::<DeviceStateKey, S>::empty()
        &&& self.decode_graph.scratch is None
        &&& self.decode_graph.warmup == Warmup::fresh()
        &&& self.spec_graphs@ == Map::<SpecScratchKey, Warmup>::empty()
        &&& self.qwen35_kv_slab_cache@ == Map::<u64, KvSlab>::empty()
        &&& self.qwen35_kv_slab_cache_quant@ == Map::<u64, QuantSlab>::empty()
        &&& self.qwen35_kv_slab_cache_quant.scratch == (IsoScratch { wide: None, k: None, v: None })
    }

    /// Starts to bring a backend up on device 0.
    pub fn new() -> (i: DriverInit)
        ensures
            i == (DriverInit { ordinal: 0, phase: DriverPhase::Context }),
    {
        Self::new_with_index(0)
    }

    /// Starts to bring a backend up on a device.
    pub fn new_with_index(ordinal: usize) -> (i: DriverInit)
        ensures
            i == (DriverInit { ordinal, phase: DriverPhase::Context }),
    {
        Driver::new_with_index(ordinal)
    }

    /// A backend on a driver that is up.
    pub fn from_driver(drv: Driver) -> (b: CudaBackend<P, W, H, S>)
        ensures
            b.wf(),
            b.drv == drv,
            b.is_fresh(),
            b.kv_cache.cache is None,
            b.q4k_device_cache@ == Map::<DeviceBytesKey, P>::empty(),
            b.q5k_device_cache@ == Map::<DeviceBytesKey, P>::empty(),
            b.q8_0_byte_device_cache@ == Map::<DeviceBytesKey, P>::empty(),
            b.q8_0_f32_device_cache@ == Map::<DeviceBytesKey, W>::empty(),
            b.q6k_f32_device_cache@ == Map::<DeviceBytesKey, W>::empty(),
            b.q6k_packed_device_cache@ == Map::<DeviceBytesKey, P>::empty(),
            b.q4k_f32_device_cache@ == Map::<DeviceBytesKey, W>::empty(),
            b.q4k_f16_device_cache@ == Map::<DeviceBytesKey, H>::empty(),
            b.q6k_f16_device_cache@ == Map::<DeviceBytesKey, H>::empty(),
            b.f32_norm_device_cache@ == Map::<DeviceBytesKey, W>::empty(),
            b.f32_weight_device_cache@ == Map::<DeviceBytesKey, W>::empty(),
            b.f16_f32_device_cache@ == Map::<DeviceBytesKey, W>::empty(),
            b.qwen35_f32_state_cache@ == Map::<DeviceStateKey, S>::empty(),
            b.decode_graph.scratch is None,
            !b.decode_graph.warmup.captured && b.decode_graph.warmup.count == 0,
            b.spec_graphs@ == Map::<SpecScratchKey, Warmup>::empty(),
            b.qwen35_kv_slab_cache@ == Map::<u64, KvSlab>::empty(),
            b.qwen35_kv_slab_cache_quant@ == Map::<u64, QuantSlab>::empty(),
            b.qwen35_kv_slab_cache_quant.scratch == (IsoScratch { wide: None, k: None, v: None }),
    {
        CudaBackend {
            drv,
            kv_cache: KvCacheSlot { cache: None },
            q4k_device_cache: DeviceCache::new(),
            q5k_device_cache: DeviceCache::new(),
            q8_0_byte_device_cache: DeviceCache::new(),
            q8_0_f32_device_cache: DeviceCache::new(),
            q6k_f32_device_cache: DeviceCache::new(),
            q6k_packed_device_cache: DeviceCache::new(),
            q4k_f32_device_cache: DeviceCache::new(),
            q4k_f16_device_cache: DeviceCache::new(),
            q6k_f16_device_cache: DeviceCache::new(),
            f32_norm_device_cache: DeviceCache::new(),
            f32_weight_device_cache: DeviceCache::new(),
            f16_f32_device_cache: DeviceCache::new(),
            qwen35_f32_state_cache: StateCache::new(),
            decode_graph: DecodeGraphState { scratch: None, warmup: Warmup::new() },
            spec_graphs: SpecGraphs::new(),
            qwen35_kv_slab_cache: KvSlabs::new(),
            qwen35_kv_slab_cache_quant: QuantSlabs::new(),
        }
    }

    /// The number of packed Q4_K weights on the device.
    pub fn q4k_device_cache_len(&self) -> (n: usize)
        requires
            self.wf(),
        ensures
            n == self.q4k_device_cache@.dom().len(),
    {
        self.q4k_device_cache.len()
    }

    /// The number of expanded Q6_K weights on the device.
    pub fn q6k_f32_device_cache_len(&self) -> (n: usize)
        requires
            self.wf(),
        ensures
            n == self.q6k_f32_device_cache@.dom().len(),
    {
        self.q6k_f32_device_cache.len()
    }

    pub fn name(&self) -> (s: &'static str)
        ensures
            s@ == "cuda"@,
    {
        "cuda"
    }

    pub fn device_info(&self) -> (s: String)
        ensures
            s@ == "cuda(device="@ + dec(self.drv.ordinal as nat) + ", cublas=ready)"@,
    {
        self.drv.device_info()
    }

    /// Whether the backend can do something. Kernels written in Rust are there only where
    /// they were built in, which `oxide` says.
    pub fn supports(&self, cap: Capability, oxide: bool) -> (r: bool)
        ensures
            r == match cap {
                Capability::CudaOxide => oxide,
                Capability::Other => false,
                _ => true,
            },
    {
        match cap {
            Capability::CudaOxide => oxide,
            Capability::Other => false,
            Capability::Cuda | Capability::F32Gemv | Capability::QuantMatVec | Capability::Q4VecMat
            | Capability::FlashAttentionV2 | Capability::KvCompressionRotorQuant
            | Capability::DecodeToken | Capability::PrefillQ4 => true,
        }
    }

    /// Forgets the rows that a layer has on the device, packed or not.
    pub fn qwen35_gqa_decode_reset(&mut self, cache_id: u64)
        requires
            old(self).wf(),
        ensures
            final(self).qwen35_kv_slab_cache@ == old(self).qwen35_kv_slab_cache@.remove(cache_id),
            final(self).qwen35_kv_slab_cache_quant@
                == old(self).qwen35_kv_slab_cache_quant@.remove(cache_id),
            final(self).qwen35_kv_slab_cache_quant.scratch
                == old(self).qwen35_kv_slab_cache_quant.scratch,
            *final(self) == (CudaBackend {
                qwen35_kv_slab_cache: final(self).qwen35_kv_slab_cache,
                qwen35_kv_slab_cache_quant: final(self).qwen35_kv_slab_cache_quant,
                ..*old(self)
            }),
    {
        self.qwen35_kv_slab_cache.reset(cache_id);
        self.qwen35_kv_slab_cache_quant.reset(cache_id);
    }
}

/// Elements up to which a weight of single precision is kept, unless the environment says
/// otherwise: none.
pub const DEFAULT_WEIGHT_CACHE_MAX_ELEMS: usize = 0;

/// `LARQL_CUDA_WEIGHT_CACHE_MAX_ELEMS` is in `value`.
pub fn weight_cache_max_elems(value: Option<&str>) -> (n: usize)
    ensures
        n == number_or(value, 0),
        value is None ==> n == 0,
{
    number_setting(value, DEFAULT_WEIGHT_CACHE_MAX_ELEMS)
}

/// Where the second factor of a product comes from.
#[derive(Clone, Copy, Debug, PartialEq, Eq, Structural)]
pub enum WeightSource {
    /// The cache of weights.
    Cached,
    /// An upload that is not kept.
    Fresh,
}

/// A weight is kept if its elements lie side by side and it is small enough. `contiguous`
/// is its length in that case.
pub fn cached_or_fresh_b(contiguous: Option<usize>, max_elems: usize) -> (r: WeightSource)
    ensures
        r == match contiguous {
            Some(n) => if max_elems > 0 && n <= max_elems {
                WeightSource::Cached
            } else {
                WeightSource::Fresh
            },
            None => WeightSource::Fresh,
        },
        r == WeightSource::Cached <==> contiguous is Some && 0 < max_elems && contiguous->0
            <= max_elems,
{
    match contiguous {
        Some(n) => if max_elems > 0 && n <= max_elems {
            WeightSource::Cached
        } else {
            WeightSource::Fresh
        },
        None => WeightSource::Fresh,
    }
}

/// Whether a row fits a matrix of `k` columns.
pub fn f32_gemv(x_len: usize, k: usize) -> (r: bool)
    ensures
        r == (x_len == k),
{
    x_len == k
}

/// Elements of a half-precision weight of `n` rows of `k`, if the row fits it and its
/// bytes are all there.
pub fn f16_gemv(w_bytes: usize, x_len: usize, n: usize, k: usize) -> (r: Option<usize>)
    requires
        n * k * 2 <= usize::MAX,
    ensures
        match r {
            Some(elems) => x_len == k && w_bytes >= n * k * 2 && elems == n * k,
            None => x_len != k || w_bytes < n * k * 2,
        },
{
    assert(0 <= n * k) by (nonlinear_arith);
    if x_len != k || w_bytes < n * k * 2 {
        return None;
    }
    Some(n * k)
}

/// Checks the bytes of a half-precision weight of `n_elements`.
pub fn with_f16_f32_device_buf(bytes: usize, n_elements: usize) -> (r: Result<(), CudaInitError>)
    requires
        n_elements * 2 <= usize::MAX,
    ensures
        r is Ok == (bytes >= n_elements * 2),
        r matches Err(e) ==> e.says(
            "f16 source bytes too short: got "@ + dec(bytes as nat) + ", need "@ + dec(
                (n_elements * 2) as nat,
            ),
        ),
{
    if bytes < n_elements * 2 {
        let mut s: String = "f16 source bytes too short: got ".to_owned();
        push_dec(&mut s, bytes as u64);
        s.append(", need ");
        push_dec(&mut s, (n_elements * 2) as u64);
        return Err(CudaInitError::DriverMissing(s));
    }
    Ok(())
}

/// What is said of a copy that ends behind its destination.
pub open spec fn copy_text(name: Seq<char>, offset: usize, len: usize, dst: usize) -> Seq<char> {
    name + " OOB: offset "@ + dec(offset as nat) + " + len "@ + dec(len as nat) + " > dst "@ + dec(
        dst as nat,
    )
}

fn copy_check(name: &str, len: usize, dst: usize, offset: usize) -> (r: Result<(), CudaInitError>)
    requires
        offset + len <= usize::MAX,
    ensures
        r is Ok == (offset + len <= dst),
        r matches Err(e) ==> e.says(copy_text(name@, offset, len, dst)),
        r matches Err(e) ==> e.says(
            name@ + " OOB: offset "@ + dec(offset as nat) + " + len "@ + dec(len as nat)
                + " > dst "@ + dec(dst as nat),
        ),
{
    if offset + len > dst {
        let mut s: String = name.to_owned();
        s.append(" OOB: offset ");
        push_dec(&mut s, offset as u64);
        s.append(" + len ");
        push_dec(&mut s, len as u64);
        s.append(" > dst ");
        push_dec(&mut s, dst as u64);
        return Err(CudaInitError::DriverMissing(s));
    }
    Ok(())
}

/// Checks a copy of `len` elements to the place `offset` in a buffer of `dst`.
pub fn htod_into_slice(len: usize, dst: usize, offset: usize) -> (r: Result<(), CudaInitError>)
    requires
        offset + len <= usize::MAX,
    ensures
        r is Ok == (offset + len <= dst),
        r matches Err(e) ==> e.says(copy_text("htod_into_slice"@, offset, len, dst)),
        r matches Err(e) ==> e.says(
            ("htod_into_slice"@) + " OOB: offset "@ + dec(offset as nat) + " + len "@
                + dec(len as nat) + " > dst "@ + dec(dst as nat),
        ),
{
    copy_check("htod_into_slice", len, dst, offset)
}

/// The same for a copy that converts to half precision.
pub fn htod_f32_as_f16_into_slice(len: usize, dst: usize, offset: usize) -> (r: Result<
    (),
    CudaInitError,
>)
    requires
        offset + len <= usize::MAX,
    ensures
        r is Ok == (offset + len <= dst),
        r matches Err(e) ==> e.says(copy_text("htod_f32_as_f16"@, offset, len, dst)),
        r matches Err(e) ==> e.says(
            ("htod_f32_as_f16"@) + " OOB: offset "@ + dec(offset as nat) + " + len "@
                + dec(len as nat) + " > dst "@ + dec(dst as nat),
        ),
{
    copy_check("htod_f32_as_f16", len, dst, offset)
}

pub open spec fn input_text(name: Seq<char>, x_len: usize, hidden: usize) -> Seq<char> {
    name + " input mismatch: x_dev.len="@ + dec(x_len as nat) + " hidden="@ + dec(hidden as nat)
}

fn input_check(name: &str, x_len: usize, hidden: usize) -> (r: Result<(), CudaInitError>)
    ensures
        r is Ok == (x_len == hidden),
        r matches Err(e) ==> e.says(input_text(name@, x_len, hidden)),
        r matches Err(e) ==> e.says(
            name@ + " input mismatch: x_dev.len="@ + dec(x_len as nat) + " hidden="@
                + dec(hidden as nat),
        ),
{
    if x_len != hidden {
        let mut s: String = name.to_owned();
        s.append(" input mismatch: x_dev.len=");
        push_dec(&mut s, x_len as u64);
        s.append(" hidden=");
        push_dec(&mut s, hidden as u64);
        return Err(CudaInitError::DriverMissing(s));
    }
    Ok(())
}

/// Checks the input of a product with a Q6_K weight.
pub fn q6k_matvec_device(x_len: usize, hidden: usize) -> (r: Result<(), CudaInitError>)
    ensures
        r is Ok == (x_len == hidden),
        r matches Err(e) ==> e.says(input_text("q6k_matvec_device"@, x_len, hidden)),
        r matches Err(e) ==> e.says(
            ("q6k_matvec_device"@) + " input mismatch: x_dev.len="@ + dec(x_len as nat)
                + " hidden="@ + dec(hidden as nat),
        ),
{
    input_check("q6k_matvec_device", x_len, hidden)
}

/// Checks the input of a product with a Q4_KF weight.
pub fn q4kf_matvec_device(x_len: usize, hidden: usize) -> (r: Result<(), CudaInitError>)
    ensures
        r is Ok == (x_len == hidden),
        r matches Err(e) ==> e.says(input_text("q4kf_matvec_device"@, x_len, hidden)),
        r matches Err(e) ==> e.says(
            ("q4kf_matvec_device"@) + " input mismatch: x_dev.len="@ + dec(x_len as nat)
                + " hidden="@ + dec(hidden as nat),
        ),
{
    input_check("q4kf_matvec_device", x_len, hidden)
}

} // verus!
