use larql_compute::backend::{
    cached_or_fresh_b, f16_gemv, f32_gemv, htod_f32_as_f16_into_slice, htod_into_slice,
    q4kf_matvec_device, q6k_matvec_device, weight_cache_max_elems, with_f16_f32_device_buf,
    CacheName, Capability, CudaBackend, WeightSource,
};
use larql_compute::device_cache::{DeviceCache, StateCache};
use larql_compute::driver::{Driver, DriverCall, DriverInit, DriverPhase};
use larql_compute::error::CudaInitError;
use larql_compute::keys::{DeviceBytesKey, DeviceStateKey};
use larql_compute::profile::{part_of, DecodeProfile, ProfilePart};
use larql_compute::program::{Buf, DeviceOp};

type Backend = CudaBackend<u32, u32, u32, u32>;

fn detail(e: &CudaInitError) -> &str {
    match e {
        CudaInitError::DriverMissing(s) => s.as_str(),
        _ => panic!("not a DriverMissing"),
    }
}

fn backend() -> Backend {
    Backend::from_driver(Driver { ordinal: 0, worker_streams: 8 })
}

/// Brings a driver up; `fails` says which phase fails, counted from zero.
fn bring_up(mut init: DriverInit, fails: &[usize]) -> Result<Driver, CudaInitError> {
    let mut step = 0;
    loop {
        if let DriverPhase::Ready(d) = init.phase {
            return Ok(d);
        }
        let failure = if fails.contains(&step) { Some("no such thing") } else { None };
        init.advance(failure)?;
        step += 1;
    }
}

#[test]
fn driver_missing_returns_typed_error() {
    match bring_up(Backend::new(), &[0]) {
        Ok(d) => {
            assert_eq!(Backend::from_driver(d).name(), "cuda");
        }
        Err(CudaInitError::DriverMissing(_))
        | Err(CudaInitError::NoDevices)
        | Err(CudaInitError::ToolkitMismatch { .. }) => {}
        Err(CudaInitError::NotImplemented(_)) => {
            panic!("backend should no longer report NotImplemented after f32 baseline");
        }
    }
    let d = bring_up(Backend::new(), &[]).unwrap();
    assert_eq!(Backend::from_driver(d).name(), "cuda");
}

#[test]
fn supports_f32_gemv_after_baseline() {
    let b = backend();
    assert!(b.supports(Capability::Cuda, false));
    assert!(
        b.supports(Capability::F32Gemv, false),
        "cuda-f32-baseline must advertise F32Gemv"
    );
    assert!(b.supports(Capability::DecodeToken, false));
}

#[test]
fn supports_q4_matvec_after_q4_baseline() {
    let b = backend();
    assert!(b.supports(Capability::QuantMatVec, false));
    assert!(b.supports(Capability::Q4VecMat, false));
    assert!(b.supports(Capability::KvCompressionRotorQuant, false));
    assert!(b.supports(Capability::DecodeToken, false));
}

#[test]
fn supports_fa2_after_fused_attention() {
    let b = backend();
    assert!(b.supports(Capability::Cuda, false));
    assert!(b.supports(Capability::F32Gemv, false));
    assert!(b.supports(Capability::QuantMatVec, false));
    assert!(b.supports(Capability::Q4VecMat, false));
    assert!(b.supports(Capability::FlashAttentionV2, false));
    assert!(b.supports(Capability::DecodeToken, false));
    assert!(b.supports(Capability::PrefillQ4, false));
    assert!(b.supports(Capability::KvCompressionRotorQuant, false));
}

#[test]
fn supports_decode_after_cuda_decode_backend() {
    let b = backend();
    assert!(b.supports(Capability::DecodeToken, false));
    assert!(b.supports(Capability::PrefillQ4, false));
}

#[test]
fn supports_cuda_oxide_when_feature_enabled() {
    let b = backend();
    assert_eq!(b.supports(Capability::CudaOxide, false), false);
    assert_eq!(b.supports(Capability::CudaOxide, true), true);
    assert!(!b.supports(Capability::Other, true));
}

#[test]
fn driver_comes_up_with_all_worker_streams() {
    let d = bring_up(Driver::new(), &[]).unwrap();
    assert_eq!(d, Driver { ordinal: 0, worker_streams: 8 });
    assert_eq!(d.device_info(), "cuda(device=0, cublas=ready)");
    let d = bring_up(Driver::new_with_index(3), &[]).unwrap();
    assert_eq!(d.device_info(), "cuda(device=3, cublas=ready)");
}

#[test]
fn a_failed_worker_stream_empties_the_pool() {
    for k in 3..11 {
        let d = bring_up(Driver::new_with_index(1), &[k]).unwrap();
        assert_eq!(d, Driver { ordinal: 1, worker_streams: 0 });
    }
}

#[test]
fn a_failed_cache_directory_does_no_harm() {
    let d = bring_up(Driver::new(), &[11]).unwrap();
    assert_eq!(d.worker_streams, 8);
}

#[test]
fn driver_failures_name_the_part() {
    assert_eq!(detail(&bring_up(Driver::new(), &[0]).unwrap_err()), "no such thing");
    assert_eq!(detail(&bring_up(Driver::new(), &[1]).unwrap_err()), "new_stream: no such thing");
    assert_eq!(detail(&bring_up(Driver::new(), &[2]).unwrap_err()), "cuBLAS init: no such thing");
    for (call, want) in [
        (DriverCall::Sync, "stream sync: e"),
        (DriverCall::DeviceAlloc, "device alloc: e"),
        (DriverCall::DeviceAllocUninit, "device alloc uninit: e"),
        (DriverCall::DeviceBufFrom, "htod copy: e"),
        (DriverCall::DeviceU8BufFrom, "htod u8 copy: e"),
        (DriverCall::ToHost, "dtoh copy: e"),
        (DriverCall::DeviceAllocI32, "device alloc i32: e"),
        (DriverCall::DeviceI32BufFrom, "htod i32 copy: e"),
        (DriverCall::ToHostI32, "dtoh i32 copy: e"),
        (DriverCall::DeviceU32BufFrom, "htod u32 copy: e"),
    ] {
        assert_eq!(detail(&call.error("e")), want);
    }
}

#[test]
fn a_fresh_backend_holds_nothing() {
    let b = backend();
    assert_eq!(b.q4k_device_cache_len(), 0);
    assert_eq!(b.q6k_f32_device_cache_len(), 0);
    assert_eq!(b.kv_cache.kv_cache_len(), 0);
    assert!(b.qwen35_kv_slab_cache.get(0).is_none());
    assert!(b.decode_graph.scratch.is_none());
    assert_eq!(b.device_info(), "cuda(device=0, cublas=ready)");
}

#[test]
fn keys_tell_buffers_apart() {
    let a = [1u8, 2, 3, 4, 5, 6, 7, 8, 9, 10];
    let k = DeviceBytesKey::at(16, &a);
    assert_eq!(k.ptr, 16);
    assert_eq!(k.len, 10);
    assert_eq!(k.head, u64::from_le_bytes([1, 2, 3, 4, 5, 6, 7, 8]));
    assert_eq!(k.tail, u64::from_le_bytes([3, 4, 5, 6, 7, 8, 9, 10]));
    let short = DeviceBytesKey::at(16, &a[..3]);
    assert_eq!(short.head, u64::from_le_bytes([1, 2, 3, 0, 0, 0, 0, 0]));
    assert_eq!(short.head, short.tail);
    let none = DeviceBytesKey::at(16, &[]);
    assert_eq!((none.len, none.head, none.tail), (0, 0, 0));
    assert_ne!(k, DeviceBytesKey::at(17, &a));
    assert_ne!(k, DeviceBytesKey::at(16, &[1u8, 2, 3, 4, 5, 6, 7, 8, 9, 11]));
}

#[test]
fn keys_hold_where_a_buffer_lies() {
    let a = vec![7u8; 32];
    let k = DeviceBytesKey::from_slice(&a);
    assert_eq!(k, DeviceBytesKey::from_slice(&a));
    assert_eq!(k, DeviceBytesKey::at(a.as_ptr() as usize, &a));
    assert_ne!(k.ptr, DeviceBytesKey::from_slice(&a[1..]).ptr);
    assert_eq!(k.head, 0x0707_0707_0707_0707);
}

#[test]
fn the_first_upload_of_a_weight_stays() {
    let mut b = backend();
    let k1 = DeviceBytesKey::at(1, &[1, 2, 3]);
    let k2 = DeviceBytesKey::at(2, &[1, 2, 3]);
    assert!(b.q4k_device_cache.get(&k1).is_none());
    b.q4k_device_cache.or_insert(k1, 10);
    b.q4k_device_cache.or_insert(k1, 11);
    b.q4k_device_cache.or_insert(k2, 12);
    assert_eq!(b.q4k_device_cache.get(&k1), Some(&10));
    assert_eq!(b.q4k_device_cache.get(&k2), Some(&12));
    assert_eq!(b.q4k_device_cache_len(), 2);
    assert_eq!(b.q6k_f32_device_cache_len(), 0);
    b.q6k_f32_device_cache.or_insert(k1, 1);
    assert_eq!(b.q6k_f32_device_cache_len(), 1);
    let empty: DeviceCache<u8> = DeviceCache::new();
    assert_eq!(empty.len(), 0);
}

#[test]
fn state_is_uploaded_once_for_each_sequence() {
    let mut c: StateCache<u32> = StateCache::new();
    let k = DeviceStateKey { ptr: 4096, len: 8 };
    let other = DeviceStateKey { ptr: 4096, len: 9 };
    assert!(c.needs_upload(&k, 0) && c.needs_upload(&k, 5));
    c.insert(k, 1);
    assert!(!c.needs_upload(&k, 1));
    assert!(c.needs_upload(&k, 0));
    assert!(c.needs_upload(&other, 1));
    c.insert(k, 2);
    c.insert(other, 3);
    assert_eq!(c.get(&k), Some(&2));
    assert_eq!(c.get(&other), Some(&3));
}

#[test]
fn weights_are_cached_only_on_request() {
    assert_eq!(weight_cache_max_elems(None), 0);
    assert_eq!(weight_cache_max_elems(Some("4194304")), 4_194_304);
    assert_eq!(weight_cache_max_elems(Some("lots")), 0);
    assert_eq!(cached_or_fresh_b(Some(10), 0), WeightSource::Fresh);
    assert_eq!(cached_or_fresh_b(Some(10), 10), WeightSource::Cached);
    assert_eq!(cached_or_fresh_b(Some(11), 10), WeightSource::Fresh);
    assert_eq!(cached_or_fresh_b(None, 10), WeightSource::Fresh);
}

#[test]
fn products_check_their_rows() {
    assert!(f32_gemv(4, 4) && !f32_gemv(3, 4));
    assert_eq!(f16_gemv(24, 4, 3, 4), Some(12));
    assert_eq!(f16_gemv(25, 4, 3, 4), Some(12));
    assert_eq!(f16_gemv(23, 4, 3, 4), None);
    assert_eq!(f16_gemv(24, 5, 3, 4), None);
    assert!(q6k_matvec_device(8, 8).is_ok());
    assert_eq!(
        detail(&q6k_matvec_device(7, 8).unwrap_err()),
        "q6k_matvec_device input mismatch: x_dev.len=7 hidden=8"
    );
    assert_eq!(
        detail(&q4kf_matvec_device(7, 8).unwrap_err()),
        "q4kf_matvec_device input mismatch: x_dev.len=7 hidden=8"
    );
}

#[test]
fn copies_check_their_ends() {
    assert!(htod_into_slice(4, 10, 6).is_ok());
    assert_eq!(
        detail(&htod_into_slice(5, 10, 6).unwrap_err()),
        "htod_into_slice OOB: offset 6 + len 5 > dst 10"
    );
    assert!(htod_f32_as_f16_into_slice(0, 0, 0).is_ok());
    assert_eq!(
        detail(&htod_f32_as_f16_into_slice(5, 10, 6).unwrap_err()),
        "htod_f32_as_f16 OOB: offset 6 + len 5 > dst 10"
    );
    assert!(with_f16_f32_device_buf(6, 3).is_ok());
    assert_eq!(
        detail(&with_f16_f32_device_buf(5, 3).unwrap_err()),
        "f16 source bytes too short: got 5, need 6"
    );
}

#[test]
fn poisoned_caches_are_named() {
    for (name, want) in [
        (CacheName::Q4k, "q4k device cache poisoned"),
        (CacheName::Q5k, "q5k device cache poisoned"),
        (CacheName::Q8_0Bytes, "q8_0 byte device cache poisoned"),
        (CacheName::Q8_0F32, "q8_0 device cache poisoned"),
        (CacheName::Q6kF32, "q6k device cache poisoned"),
        (CacheName::Q6kPacked, "q6k packed cache poisoned"),
        (CacheName::Q4kF32, "q4k f32 cache poisoned"),
        (CacheName::Q4kF16, "q4k f16 cache poisoned"),
        (CacheName::Q6kF16, "q6k f16 cache poisoned"),
        (CacheName::F32Norm, "f32 norm cache poisoned"),
        (CacheName::F32Weight, "f32 weight cache poisoned"),
        (CacheName::F16F32, "f16 f32 cache poisoned"),
        (CacheName::Qwen35State, "qwen35 state device cache poisoned"),
    ] {
        assert_eq!(detail(&name.poisoned()), want);
    }
}

#[test]
fn profile_adds_up() {
    let mut p = DecodeProfile::default();
    assert_eq!(p.total(), 0);
    let parts = [
        ProfilePart::NormCpu,
        ProfilePart::Htod,
        ProfilePart::ProjQkv,
        ProfilePart::AttnCall,
        ProfilePart::ProjWo,
        ProfilePart::DtohAttnDelta,
        ProfilePart::ProjGateUp,
        ProfilePart::DtohGateUp,
        ProfilePart::ProjDown,
        ProfilePart::DtohFfnDelta,
        ProfilePart::ResidualCpu,
    ];
    for (i, part) in parts.iter().enumerate() {
        p.charge(*part, 1 << i);
    }
    p.charge(ProfilePart::Htod, 1 << 20);
    assert_eq!(p.total(), 2047 + (1 << 20));
    assert_eq!(p.htod, 2 + (1 << 20));
    assert_eq!(p.residual_cpu, 1024);
    assert_eq!(part_of(&DeviceOp::Upload { len: 1 }), Some(ProfilePart::Htod));
    assert_eq!(part_of(&DeviceOp::BeginLayer { index: 0 }), None);
    assert_eq!(part_of(&DeviceOp::Download { len: 1 }), Some(ProfilePart::DtohFfnDelta));
    let pack = DeviceOp::QuantizeQ8 { src: Buf::HAttn, dst: Buf::HAttnQ8, n: 32, optional: true };
    assert_eq!(part_of(&pack), None);
}
