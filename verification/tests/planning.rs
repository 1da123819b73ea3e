use larql_compute::decode::{gemm_proj_seq, matvec_device, matvec_device_mmvq, plan_decode};
use larql_compute::dispatch::{
    decode_token, decode_token_device, decode_tokens_speculative,
    decode_tokens_speculative_seq_device, decode_tokens_speculative_seq_device_inner,
    decode_tokens_speculative_tree_keep_cache, decode_tokens_speculative_tree_seq_device,
    finish_batched, flatten_rows, next_position, pass_done, prefill_pass, prefill_q4, prefill_q4_seq_device,
    split_rows, token_done, DecodeAttempt, InnerRoute, PrefillAttempt, RunNext, RunPolicy,
    SeqPrefill, SpecRoute, TokenRun,
};
use larql_compute::error::CudaInitError;
use larql_compute::flags::{DecodeFlags, DecodeSettings};
use larql_compute::graph::{DecodeGraphState, GraphMode, GraphPhase, Warmup};
use larql_compute::host_decode::{decode_token_host_fallback, dequant_weight, matvec};
use larql_compute::kv_cache::{CudaKvCache, KvCacheSlot};
use larql_compute::layer::{
    batched_supports_layers, decode_device_supports_layers, decode_graph_supports_layers,
    layer_supports_device_path, layer_supports_mmvq, Activation, CallDims, FfnType,
    FullPipelineLayer, NormRef, NormType, QuantFormat, QuantWeight,
};
use larql_compute::pipeline::{
    arc_qweight, graph_layer_dims, proj_q8_1_into, run_decode_pipeline_into_scratch,
    DecodeScratchShape, PackedCache,
};
use larql_compute::prefill::{plan_placed_seq, plan_seq, SeqAttn, SeqPass};
use larql_compute::program::{AttnKind, Buf, DeviceOp, HostRoute, Route, WeightRef};
use larql_compute::spec_graph::{SpecCall, SpecGraphs, SpecPhase, SpecScratchKey};

fn weight(format: QuantFormat) -> QuantWeight {
    QuantWeight { format, data_len: 0 }
}

fn layer() -> FullPipelineLayer {
    FullPipelineLayer {
        wq: weight(QuantFormat::Q4_K),
        wk: weight(QuantFormat::Q4_K),
        wv: weight(QuantFormat::Q6_K),
        wo: weight(QuantFormat::Q4_K),
        gate: weight(QuantFormat::Q4_K),
        up: weight(QuantFormat::Q4_K),
        down: weight(QuantFormat::Q6_K),
        has_post_norms: false,
        pre_ffn_norm: false,
        post_ffn_norm: None,
        q_norm_weight: false,
        k_norm_weight: false,
        has_v_norm: false,
        norm_type: NormType::RmsNorm,
        ffn_type: FfnType::Gated,
        activation: Activation::Silu,
        has_moe: false,
        ffn_is_remote: false,
        head_dim: 64,
        num_q_heads: 4,
        num_kv_heads: 2,
        rotary_dim: 64,
        rope_base_bits: 0,
        layer_scalar_bits: 0,
        attn_scale_bits: 1.0f32.to_bits(),
        eps_bits: 1e-6f32.to_bits(),
        norm_offset_bits: 0,
        qk_norm_offset_bits: 0,
    }
}

fn call() -> CallDims {
    CallDims {
        hidden: 256,
        inter: 512,
        q_dim: 256,
        kv_dim: 128,
        num_q_heads: 4,
        num_kv_heads: 2,
        head_dim: 64,
        rope_base_bits: 10000.0f32.to_bits(),
    }
}

fn flags() -> DecodeFlags {
    DecodeFlags {
        q4k_mmvq: true,
        q6k_mmvq: true,
        tensor_cores: false,
        host_fallback: false,
        decode_graph: true,
        prefill_host_fallback: false,
        prefill_batched_attn: true,
        spec_batched: true,
        spec_batched_min_n: 4,
        spec_scratch: true,
        spec_graph: true,
    }
}

fn slot(max_seq: usize, len: usize) -> KvCacheSlot {
    let mut cache = CudaKvCache::new_device(&[(2, 64)], max_seq);
    cache.len = len;
    KvCacheSlot { cache: Some(cache) }
}

#[test]
fn layers_are_sorted_by_path() {
    let plain = layer();
    let kf = FullPipelineLayer { wq: weight(QuantFormat::Q4_KF), ..plain };
    let f32_layer = FullPipelineLayer { down: weight(QuantFormat::F32), ..plain };
    assert!(layer_supports_device_path(&plain) && layer_supports_mmvq(&plain));
    assert!(layer_supports_device_path(&kf) && !layer_supports_mmvq(&kf));
    assert!(!layer_supports_device_path(&f32_layer));
    assert!(decode_device_supports_layers(&[plain, kf]) && !batched_supports_layers(&[plain, kf]));
    assert!(batched_supports_layers(&[plain]) && decode_graph_supports_layers(&[plain, plain]));
    assert!(!decode_graph_supports_layers(&[]));
    let v_norm = FullPipelineLayer { has_v_norm: true, ..plain };
    assert!(!decode_graph_supports_layers(&[plain, v_norm]));
    let wide = FullPipelineLayer { head_dim: 128, ..plain };
    assert!(!decode_graph_supports_layers(&[plain, wide]));
    let moe = FullPipelineLayer { has_moe: true, ..plain };
    assert!(!decode_device_supports_layers(&[moe]));
    let gelu = FullPipelineLayer { activation: Activation::GeluTanh, ..plain };
    assert!(!decode_graph_supports_layers(&[plain, gelu]));
    assert!(decode_graph_supports_layers(&[gelu, gelu]));
}

#[test]
fn routes_of_a_projection() {
    assert_eq!(matvec_device(QuantFormat::Q4_K, 8, 8), Some(Route::Q4kDirect));
    assert_eq!(matvec_device(QuantFormat::Q4_KF, 8, 8), Some(Route::Q4kfGemv));
    assert_eq!(matvec_device(QuantFormat::Q6_K, 8, 8), Some(Route::Q6kGemv));
    assert_eq!(matvec_device(QuantFormat::Q4_K, 7, 8), None);
    assert_eq!(matvec_device(QuantFormat::F16, 8, 8), None);
    let f = flags();
    assert_eq!(gemm_proj_seq(&f, QuantFormat::Q4_K), Some(Route::GemmF32));
    let tc = DecodeFlags { tensor_cores: true, ..f };
    assert_eq!(gemm_proj_seq(&tc, QuantFormat::Q6_K), Some(Route::GemmF16));
    assert_eq!(gemm_proj_seq(&tc, QuantFormat::Q5_K), None);
    let r = matvec_device_mmvq(&f, QuantFormat::Q6_K, true, 8, 8);
    assert_eq!((r.packed, r.direct), (Some(Route::Q6kMmvq), Some(Route::Q6kGemv)));
    let off = DecodeFlags { q6k_mmvq: false, ..f };
    assert_eq!(matvec_device_mmvq(&off, QuantFormat::Q6_K, true, 8, 8).packed, None);
    assert_eq!(matvec_device_mmvq(&f, QuantFormat::Q4_K, false, 8, 8).packed, None);
}

#[test]
fn a_decode_step_runs_its_layers_in_order() {
    let ops = plan_decode(&flags(), &call(), &[layer(), layer()], 5, 4096);
    assert_eq!(ops[0], DeviceOp::Upload { len: 256 });
    assert_eq!(*ops.last().unwrap(), DeviceOp::Download { len: 256 });
    let begins: Vec<usize> = ops
        .iter()
        .filter_map(|o| match o {
            DeviceOp::BeginLayer { index } => Some(*index),
            _ => None,
        })
        .collect();
    assert_eq!(begins, vec![0, 1]);
    assert_eq!(
        ops[2],
        DeviceOp::RmsNorm {
            src: Buf::H,
            dst: Buf::HAttn,
            norm: NormRef::Input,
            rows: 1,
            dim: 256
        }
    );
    assert_eq!(
        ops[3],
        DeviceOp::QuantizeQ8 { src: Buf::HAttn, dst: Buf::HAttnQ8, n: 256, optional: true }
    );
    match ops[7] {
        DeviceOp::Attention { kind, call, rows, .. } => {
            assert_eq!(kind, AttnKind::Decode { pos: 5 });
            assert_eq!(call.rope_base_bits, 10000.0f32.to_bits());
            assert_eq!((call.num_q_heads, call.num_kv_heads, call.head_dim, rows), (4, 2, 64, 1));
        }
        _ => panic!("attention expected"),
    }
    let per_layer = (ops.len() - 2) / 2;
    assert_eq!(ops[2..1 + per_layer], ops[2 + per_layer..1 + 2 * per_layer]);
}

#[test]
fn post_norms_and_scalars_add_steps() {
    let l = FullPipelineLayer {
        has_post_norms: true,
        pre_ffn_norm: true,
        post_ffn_norm: Some(256),
        layer_scalar_bits: 0.5f32.to_bits(),
        rope_base_bits: 500.0f32.to_bits(),
        ..layer()
    };
    let plain = plan_decode(&flags(), &call(), &[layer()], 0, 64);
    let ops = plan_decode(&flags(), &call(), &[l], 0, 64);
    assert_eq!(ops.len(), plain.len() + 3);
    assert!(ops.contains(&DeviceOp::Scale { bits: 0.5f32.to_bits(), len: 256 }));
    assert!(ops.contains(&DeviceOp::RmsNorm {
        src: Buf::FfnDelta,
        dst: Buf::FfnNormed,
        norm: NormRef::PostFfn,
        rows: 1,
        dim: 256
    }));
    assert!(ops.contains(&DeviceOp::RmsNorm {
        src: Buf::H,
        dst: Buf::HFfn,
        norm: NormRef::PreFfn,
        rows: 1,
        dim: 256
    }));
    assert!(ops.iter().any(|o| matches!(
        o,
        DeviceOp::Attention { call, .. } if call.rope_base_bits == 500.0f32.to_bits()
    )));
    let one = FullPipelineLayer { layer_scalar_bits: 1.0f32.to_bits(), ..layer() };
    assert_eq!(plan_decode(&flags(), &call(), &[one], 0, 64), plain);
    let minus_zero = FullPipelineLayer { layer_scalar_bits: (-0.0f32).to_bits(), ..layer() };
    assert_eq!(plan_decode(&flags(), &call(), &[minus_zero], 0, 64), plain);
}

#[test]
fn a_batched_pass_has_one_attention_or_one_for_each_position() {
    let pass = SeqPass { base_pos: 0, seq_len: 3, attn: SeqAttn::Batched };
    let ops = plan_seq(&flags(), &call(), &[layer()], &pass, 64);
    assert_eq!(ops[0], DeviceOp::Upload { len: 768 });
    assert!(ops.iter().any(|o| matches!(
        o,
        DeviceOp::Attention { kind: AttnKind::Run { base_pos: 0 }, rows: 3, .. }
    )));
    let one = SeqPass { attn: SeqAttn::PerPosition, ..pass };
    let ops = plan_seq(&flags(), &call(), &[layer()], &one, 64);
    let positions: Vec<usize> = ops
        .iter()
        .filter_map(|o| match o {
            DeviceOp::Attention { kind: AttnKind::Decode { pos }, rows: 1, .. } => Some(*pos),
            _ => None,
        })
        .collect();
    assert_eq!(positions, vec![0, 1, 2]);
    assert!(ops.contains(&DeviceOp::CopyRange {
        src: Buf::K,
        src_off: 256,
        dst: Buf::KPos,
        dst_off: 0,
        len: 128
    }));
    let tree = SeqPass { base_pos: 9, seq_len: 3, attn: SeqAttn::Tree };
    let ops = plan_seq(&flags(), &call(), &[layer()], &tree, 64);
    assert!(ops.iter().any(|o| matches!(
        o,
        DeviceOp::Attention { kind: AttnKind::TreeAtDevicePos { base_pos: 9 }, rows: 3, .. }
    )));
}

#[test]
fn the_host_step_knows_plain_layers_only() {
    let mut c = call();
    c.q_dim = 128;
    let ops = decode_token_host_fallback(&c, &[layer()], 2, 64);
    assert!(ops.iter().any(|o| matches!(
        o,
        DeviceOp::Attention { kind: AttnKind::DecodeThroughHost { pos: 2 }, .. }
    )));
    assert!(ops.iter().any(|o| matches!(
        o,
        DeviceOp::HostProject { weight: WeightRef::Wo, attempts: 1, .. }
    )));
    let ops = decode_token_host_fallback(&call(), &[layer()], 2, 64);
    assert!(ops.iter().any(|o| matches!(
        o,
        DeviceOp::HostProject { weight: WeightRef::Wo, attempts: 2, .. }
    )));
    let ln = FullPipelineLayer { norm_type: NormType::LayerNorm, ..layer() };
    let part = decode_token_host_fallback(&call(), &[layer(), ln, layer()], 2, 64);
    assert_eq!(part, ops[..ops.len() - 1].to_vec());
    assert_eq!(ops.last(), Some(&DeviceOp::Download { len: 256 }));
    assert_eq!(
        decode_token_host_fallback(&call(), &[ln, layer()], 2, 64),
        vec![DeviceOp::Upload { len: 256 }]
    );
    let joint = FullPipelineLayer {
        wq: weight(QuantFormat::Q6_K),
        wk: weight(QuantFormat::Q6_K),
        ..layer()
    };
    let ops = decode_token_host_fallback(&call(), &[joint], 0, 64);
    assert!(ops.contains(&DeviceOp::QkvRmsProj {
        q_dim: 256,
        kv_dim: 128,
        dim: 256,
        expandable: true
    }));
}

#[test]
fn host_projections_find_their_routes() {
    let f = QuantWeight { format: QuantFormat::F32, data_len: 48 };
    assert!(dequant_weight(&f, 3, 4) && !dequant_weight(&f, 3, 5));
    assert!(dequant_weight(&weight(QuantFormat::Q5_K), 3, 5));
    assert!(!dequant_weight(&weight(QuantFormat::BF16), 3, 5));
    assert_eq!(matvec(&f, 4, 3, 4), Some(HostRoute::ExpandGemv));
    assert_eq!(matvec(&f, 5, 3, 4), None);
    assert_eq!(matvec(&weight(QuantFormat::Q6_K), 4, 3, 4), Some(HostRoute::Q6k));
    assert_eq!(matvec(&weight(QuantFormat::F16), 4, 3, 4), None);
}

#[test]
fn decode_tries_graph_then_kernels_then_host() {
    use_attempts(
        decode_token(&flags(), &[layer()], 256, 256),
        &[DecodeAttempt::Graph, DecodeAttempt::Eager, DecodeAttempt::Host],
    );
    let no_graph = DecodeFlags { decode_graph: false, ..flags() };
    use_attempts(
        decode_token(&no_graph, &[layer()], 256, 256),
        &[DecodeAttempt::Eager, DecodeAttempt::Host],
    );
    let host = DecodeFlags { host_fallback: true, ..flags() };
    use_attempts(decode_token(&host, &[layer()], 256, 256), &[DecodeAttempt::Host]);
    use_attempts(decode_token(&flags(), &[layer()], 255, 256), &[]);
    use_attempts(decode_token(&flags(), &[], 256, 256), &[]);
    use_attempts(
        decode_token_device(&host, &[layer()], 256, 256),
        &[DecodeAttempt::Eager],
    );
}

fn use_attempts(got: Vec<DecodeAttempt>, want: &[DecodeAttempt]) {
    assert_eq!(got, want);
}

#[test]
fn a_token_takes_the_next_position() {
    let mut kv = slot(4, 3);
    assert_eq!(next_position(&kv), Some(3));
    token_done(&mut kv, 3);
    assert_eq!(kv.kv_cache_len(), 4);
    assert_eq!(next_position(&kv), None);
    assert_eq!(next_position(&KvCacheSlot::new()), None);
}

#[test]
fn a_prompt_goes_in_at_once_or_token_by_token() {
    assert_eq!(
        prefill_q4(&flags(), &[layer()], 512, 2, 256),
        vec![PrefillAttempt::SeqDevice, PrefillAttempt::PerToken]
    );
    let off = DecodeFlags { prefill_host_fallback: true, ..flags() };
    assert_eq!(prefill_q4(&off, &[layer()], 512, 2, 256), vec![PrefillAttempt::PerToken]);
    assert_eq!(prefill_q4(&flags(), &[layer()], 511, 2, 256), vec![]);
    let mut kv = slot(8, 5);
    assert_eq!(prefill_q4_seq_device(&mut kv, &[layer()], 0, 0, 256), SeqPrefill::Refused);
    assert_eq!(kv.kv_cache_len(), 5);
    assert_eq!(prefill_q4_seq_device(&mut kv, &[layer()], 256, 1, 256), SeqPrefill::SingleToken);
    assert_eq!(kv.kv_cache_len(), 0);
    assert_eq!(prefill_q4_seq_device(&mut kv, &[layer()], 512, 2, 256), SeqPrefill::Batched);
    assert_eq!(
        prefill_pass(&flags(), &kv, 8),
        Some(SeqPass { base_pos: 0, seq_len: 8, attn: SeqAttn::Batched })
    );
    assert_eq!(prefill_pass(&flags(), &kv, 9), None);
}

#[test]
fn drafted_tokens_find_their_route() {
    let rows = |n: usize| vec![vec![0u8; 3]; n];
    let route = |f: &DecodeFlags, n| decode_tokens_speculative(f, &[layer()], &rows(n), 3);
    assert_eq!(route(&flags(), 0), SpecRoute::Empty);
    assert_eq!(route(&flags(), 3), SpecRoute::Sequential);
    assert_eq!(route(&flags(), 4), SpecRoute::Batched);
    let off = DecodeFlags { spec_batched: false, ..flags() };
    assert_eq!(route(&off, 4), SpecRoute::Sequential);
    let uneven = vec![vec![0u8; 3], vec![0u8; 2]];
    assert_eq!(decode_tokens_speculative(&flags(), &[layer()], &uneven, 3), SpecRoute::Refused);
    let tree = |n: usize, a: usize| {
        decode_tokens_speculative_tree_keep_cache(&[layer()], &rows(n), &vec![1u64; a], 3)
    };
    assert!(tree(1, 1) && tree(64, 64));
    assert!(!tree(0, 0) && !tree(65, 65) && !tree(3, 2));
    assert!(decode_tokens_speculative_seq_device(&[layer()], 6, 2, 3));
    assert!(!decode_tokens_speculative_seq_device(&[], 6, 2, 3));
    assert!(decode_tokens_speculative_tree_seq_device(&[layer()], 6, 2, 3, &[1, 3]));
    assert!(!decode_tokens_speculative_tree_seq_device(&[layer()], 6, 2, 3, &[1]));
}

#[test]
fn a_batched_verification_stays_within_the_cache() {
    let kv = slot(8, 5);
    let inner = |f: &DecodeFlags, n, tree| {
        decode_tokens_speculative_seq_device_inner(f, &kv, 5, n, tree)
    };
    assert_eq!(
        inner(&flags(), 3, false),
        InnerRoute::Scratch(SeqPass { base_pos: 5, seq_len: 3, attn: SeqAttn::AtDevicePos })
    );
    assert_eq!(inner(&flags(), 4, false), InnerRoute::Refused);
    let plain = DecodeFlags { spec_scratch: false, ..flags() };
    assert_eq!(
        inner(&plain, 3, false),
        InnerRoute::Plain(SeqPass { base_pos: 5, seq_len: 3, attn: SeqAttn::Batched })
    );
    assert_eq!(inner(&plain, 3, true), InnerRoute::Refused);
}

/// Runs `n` tokens of which the one with index `bad` fails.
fn token_run(policy: RunPolicy, n: usize, bad: Option<usize>) -> (usize, bool) {
    let mut kv = slot(64, 10);
    let (mut run, mut next) = TokenRun::begin(&mut kv, n, policy);
    while let RunNext::Decode(i) = next {
        let ok = bad != Some(i);
        if ok {
            let pos = next_position(&kv).unwrap();
            token_done(&mut kv, pos);
        }
        next = run.on_token(&mut kv, ok);
    }
    (kv.kv_cache_len(), next == RunNext::Finished)
}

#[test]
fn runs_leave_the_cache_in_order() {
    assert_eq!(token_run(RunPolicy::Restore, 3, None), (10, true));
    assert_eq!(token_run(RunPolicy::Restore, 3, Some(2)), (10, false));
    assert_eq!(token_run(RunPolicy::Keep, 3, None), (13, true));
    assert_eq!(token_run(RunPolicy::Keep, 3, Some(1)), (10, false));
    assert_eq!(token_run(RunPolicy::Prompt, 3, None), (3, true));
    assert_eq!(token_run(RunPolicy::Prompt, 3, Some(2)), (2, false));
}

#[test]
fn a_batched_verification_is_undone_unless_kept() {
    for (flat, keep, want, len) in [
        (Some(6), true, true, 12),
        (Some(6), false, true, 10),
        (Some(5), true, false, 10),
        (None, true, false, 12),
        (None, false, false, 10),
    ] {
        let mut kv = slot(64, 12);
        assert_eq!(finish_batched(&mut kv, 10, flat, 2, 3, keep), want);
        assert_eq!(kv.kv_cache_len(), len);
    }
}

#[test]
fn rows_are_laid_out_and_cut_apart() {
    let rows = vec![vec![1, 2], vec![3, 4], vec![5, 6]];
    let flat = flatten_rows(&rows);
    assert_eq!(flat, vec![1, 2, 3, 4, 5, 6]);
    assert_eq!(split_rows(&flat, 3, 2), rows);
}

#[test]
fn the_cache_is_brought_into_shape() {
    let mut kv = KvCacheSlot::new();
    assert_eq!(kv.kv_cache_len(), 0);
    let a = kv.next_alloc(&[layer()], 2, 64).unwrap();
    assert_eq!((a.shapes.clone(), a.max_seq), (vec![(2, 64)], 4096));
    kv.ensure_for_layers(&a, false);
    assert!(kv.cache.is_none());
    kv.ensure_for_layers(&a, true);
    assert!(kv.next_alloc(&[layer()], 2, 64).is_none());
    assert_eq!(kv.cache.as_ref().unwrap().layers[0].k_len, 4096 * 2 * 64);
    kv.advance(7);
    assert!(!kv.preallocate_kv_cache_per_layer(&[(2, 64)], 4096));
    assert_eq!(kv.kv_cache_len(), 0);
    assert!(kv.preallocate_kv_cache_per_layer(&[(2, 64)], 8192));
    kv.replace(&[(2, 64)], 8192, true);
    kv.advance(9);
    kv.truncate_kv_cache(20);
    assert_eq!(kv.kv_cache_len(), 9);
    kv.truncate_kv_cache(4);
    assert_eq!(kv.kv_cache_len(), 4);
    kv.reset_kv_cache();
    assert_eq!(kv.kv_cache_len(), 0);
    kv.replace(&[(2, 64)], 8192, false);
    assert!(kv.cache.is_none());
}

#[test]
fn the_caller_may_ask_for_more_than_the_layers() {
    let mut kv = KvCacheSlot::new();
    let a = kv.next_alloc(&[layer()], 8, 64).unwrap();
    assert_eq!(a.shapes, vec![(8, 64)]);
    kv.ensure_for_layers(&a, true);
    let b = kv.next_alloc(&[layer()], 8, 64).unwrap();
    assert_eq!(b.shapes, vec![(2, 64)]);
    kv.ensure_for_layers(&b, true);
    assert!(kv.next_alloc(&[layer()], 8, 64).is_none());
}

#[test]
fn layers_are_seeded_from_the_host() {
    let mut kv = KvCacheSlot::new();
    let a = kv.seed_alloc(1, 10, 2, 4).unwrap();
    assert_eq!((a.shapes.clone(), a.max_seq), (vec![(2, 4), (2, 4)], 4096));
    kv.replace(&a.shapes, a.max_seq, true);
    assert!(kv.seed_alloc(1, 10, 2, 4).is_none());
    assert_eq!(kv.populate_kv_layer(1, 80, 80, 10, 2, 4), Some(80));
    assert_eq!(kv.populate_kv_layer(1, 79, 80, 10, 2, 4), None);
    assert_eq!(kv.populate_kv_layer(2, 80, 80, 10, 2, 4), None);
    assert_eq!(kv.populate_kv_layer(1, 80, 80, 10, 4, 2), None);
    kv.seeded(10);
    kv.seeded(3);
    assert_eq!(kv.kv_cache_len(), 10);
}

/// Runs one decode step with a graph; `bad` is the phase that fails.
fn graph_step(
    st: &mut DecodeGraphState,
    kv: &mut KvCacheSlot,
    bad: Option<fn(&GraphPhase) -> bool>,
) -> (Vec<GraphPhase>, bool) {
    let mut seen = Vec::new();
    let mut p = st.decode_token_device_graph_attempt(&call(), &[layer()], 256);
    loop {
        if let GraphPhase::Done(ok) = p {
            return (seen, ok);
        }
        seen.push(p);
        let ok = !bad.map(|f| f(&p)).unwrap_or(false);
        p = st.advance(kv, p, ok);
    }
}

#[test]
fn the_second_step_is_captured_and_the_third_replays() {
    let mut st = DecodeGraphState::new();
    let mut kv = slot(16, 0);
    let (first, ok) = graph_step(&mut st, &mut kv, None);
    assert!(ok);
    assert!(matches!(first[0], GraphPhase::AllocScratch(_)));
    assert!(first.contains(&GraphPhase::RunPipeline { pos: 0, capture: false }));
    let (second, _) = graph_step(&mut st, &mut kv, None);
    assert!(second.contains(&GraphPhase::BeginCapture { pos: 1 }));
    assert!(second.contains(&GraphPhase::LaunchFresh { pos: 1 }));
    let (third, _) = graph_step(&mut st, &mut kv, None);
    assert_eq!(*third.last().unwrap(), GraphPhase::Replay { pos: 2 });
    assert_eq!(kv.kv_cache_len(), 3);
}

#[test]
fn a_failed_capture_starts_over() {
    let mut st = DecodeGraphState::new();
    let mut kv = slot(16, 0);
    graph_step(&mut st, &mut kv, None);
    let (_, ok) = graph_step(&mut st, &mut kv, Some(|p| matches!(p, GraphPhase::RunPipeline { .. })));
    assert!(!ok);
    assert_eq!(kv.kv_cache_len(), 1);
    assert_eq!(st.warmup, Warmup { captured: false, count: 0 });
    let (again, _) = graph_step(&mut st, &mut kv, None);
    assert!(again.contains(&GraphPhase::RunPipeline { pos: 1, capture: false }));
    let (then, _) = graph_step(&mut st, &mut kv, None);
    assert!(then.contains(&GraphPhase::BeginCapture { pos: 2 }));
    let mut w = Warmup::new();
    assert_eq!(w.begin(), GraphMode::Eager);
    assert_eq!(w.begin(), GraphMode::Capture);
}

#[test]
fn graphs_need_sizes_that_can_be_packed() {
    let st = DecodeGraphState::new();
    let odd = CallDims { inter: 500, ..call() };
    assert_eq!(
        st.decode_token_device_graph_attempt(&odd, &[layer()], 256),
        GraphPhase::Done(false)
    );
    assert_eq!(
        st.decode_token_device_graph_attempt(&call(), &[layer()], 255),
        GraphPhase::Done(false)
    );
    assert_eq!(st.decode_token_device_graph_attempt(&call(), &[], 256), GraphPhase::Done(false));
    let d = graph_layer_dims(&call(), &layer());
    let ops = run_decode_pipeline_into_scratch(&call(), &d, &[layer()], 64);
    assert_eq!(ops[0], DeviceOp::BeginLayer { index: 0 });
    assert!(ops.iter().all(|o| !matches!(o, DeviceOp::QuantizeQ8 { optional: true, .. })));
    assert_eq!(proj_q8_1_into(QuantFormat::Q6_K).unwrap(), Route::Q6kMmvq);
    assert_eq!(arc_qweight(QuantFormat::Q4_K).unwrap(), PackedCache::Q4k);
    match proj_q8_1_into(QuantFormat::Q5_K) {
        Err(CudaInitError::DriverMissing(s)) => {
            assert_eq!(s, "decode_graph proj: unsupported format Q5_K")
        }
        _ => panic!("refusal expected"),
    }
    match arc_qweight(QuantFormat::BF16) {
        Err(CudaInitError::DriverMissing(s)) => {
            assert_eq!(s, "decode_graph: unsupported quant format BF16")
        }
        _ => panic!("refusal expected"),
    }
}

fn spec_pass(g: &mut SpecGraphs, kv: &mut KvCacheSlot, c: &SpecCall) -> Vec<SpecPhase> {
    let mut seen = Vec::new();
    let mut p = g.decode_tokens_speculative_seq_device_scratch(c);
    while !matches!(p, SpecPhase::Done(_)) {
        seen.push(p);
        p = g.advance(kv, c, p, true);
    }
    seen
}

#[test]
fn passes_are_warmed_up_for_each_shape() {
    let shape = DecodeScratchShape { hidden: 256, q_dim: 256, kv_dim: 128, inter: 512, head_dim: 64 };
    let mut g = SpecGraphs::new();
    let mut kv = slot(64, 5);
    let c = SpecCall { key: SpecScratchKey::linear(4, shape), base_pos: 5, graphs: true };
    let first = spec_pass(&mut g, &mut kv, &c);
    assert_eq!(first[0], SpecPhase::AllocScratch);
    assert_eq!(kv.kv_cache_len(), 9);
    let second = spec_pass(&mut g, &mut kv, &c);
    assert!(second.contains(&SpecPhase::EndCapture));
    let third = spec_pass(&mut g, &mut kv, &c);
    assert!(third.contains(&SpecPhase::Replay));
    let tree = SpecCall { key: SpecScratchKey::tree(4, shape), ..c };
    assert_eq!(spec_pass(&mut g, &mut kv, &tree)[0], SpecPhase::AllocScratch);
    assert!(g.has(&tree.key) && g.has(&c.key));
    assert!(!g.has(&SpecScratchKey::linear(5, shape)));
    let plain = SpecCall { graphs: false, ..c };
    assert!(spec_pass(&mut g, &mut kv, &plain).contains(&SpecPhase::RunLayers { capture: false }));
}

/// Takes a pass from its first phase on, with phase `bad` failing, and tells whether it ended
/// with its rows.
fn failing_pass(g: &mut SpecGraphs, kv: &mut KvCacheSlot, c: &SpecCall, bad: SpecPhase) -> bool {
    let mut p = g.decode_tokens_speculative_seq_device_scratch(c);
    loop {
        if let SpecPhase::Done(rows) = p {
            return rows;
        }
        p = g.advance(kv, c, p, p != bad);
    }
}

#[test]
fn computed_rows_are_counted_and_no_others() {
    let shape = DecodeScratchShape { hidden: 256, q_dim: 256, kv_dim: 128, inter: 512, head_dim: 64 };
    let c = SpecCall { key: SpecScratchKey::linear(4, shape), base_pos: 5, graphs: true };
    for (warm, bad, len) in [
        (0, SpecPhase::AllocScratch, 5),
        (0, SpecPhase::RunLayers { capture: false }, 5),
        (0, SpecPhase::Fetch, 9),
        (1, SpecPhase::RunLayers { capture: true }, 5),
        (1, SpecPhase::LaunchFresh, 5),
        (1, SpecPhase::Fetch, 9),
        (2, SpecPhase::Replay, 5),
        (2, SpecPhase::Fetch, 9),
    ] {
        let mut g = SpecGraphs::new();
        let mut kv = slot(64, 5);
        for _ in 0..warm {
            spec_pass(&mut g, &mut kv, &c);
            kv.truncate_kv_cache(5);
        }
        assert!(!failing_pass(&mut g, &mut kv, &c, bad));
        assert_eq!(kv.kv_cache_len(), len);
        assert!(!finish_batched(&mut kv, 5, None, 4, 256, false));
        assert_eq!(kv.kv_cache_len(), 5);
    }
}

#[test]
fn a_failed_capture_is_made_up_for_and_tried_again() {
    let shape = DecodeScratchShape { hidden: 256, q_dim: 256, kv_dim: 128, inter: 512, head_dim: 64 };
    let c = SpecCall { key: SpecScratchKey::linear(4, shape), base_pos: 5, graphs: true };
    let mut g = SpecGraphs::new();
    let mut kv = slot(64, 5);
    spec_pass(&mut g, &mut kv, &c);
    kv.truncate_kv_cache(5);
    assert!(failing_pass(&mut g, &mut kv, &c, SpecPhase::EndCapture));
    assert_eq!(kv.kv_cache_len(), 9);
    let eager = SpecPhase::RunLayers { capture: false };
    assert!(spec_pass(&mut g, &mut kv, &c).contains(&eager));
    assert!(spec_pass(&mut g, &mut kv, &c).contains(&SpecPhase::EndCapture));
    assert!(spec_pass(&mut g, &mut kv, &c).contains(&SpecPhase::Replay));
}

#[test]
fn the_rows_of_a_pass_are_counted() {
    let mut kv = slot(64, 10);
    let pass = prefill_pass(&flags(), &kv, 7).unwrap();
    kv.reset_kv_cache();
    pass_done(&mut kv, &pass);
    assert_eq!(kv.kv_cache_len(), 7);
    pass_done(&mut kv, &SeqPass { base_pos: 7, seq_len: 3, attn: SeqAttn::Batched });
    assert_eq!(kv.kv_cache_len(), 10);
    assert!(finish_batched(&mut kv, 7, Some(6), 3, 2, true));
    assert_eq!(kv.kv_cache_len(), 10);
}

#[test]
fn a_placed_pass_is_the_pass_without_its_ends() {
    let c = call();
    let layers = [layer(), layer()];
    let pass = SeqPass { base_pos: 3, seq_len: 2, attn: SeqAttn::AtDevicePos };
    let whole = plan_seq(&flags(), &c, &layers, &pass, 64);
    let placed = plan_placed_seq(&flags(), &c, &layers, &pass, 64);
    assert_eq!(placed, whole[1..whole.len() - 1].to_vec());
}

#[test]
fn slabs_are_allocated_once() {
    let mut kv = KvCacheSlot::new();
    assert!(kv.preallocate_kv_cache_per_layer(&[(2, 64)], 32));
    kv.replace(&[(2, 64)], 32, true);
    kv.advance(7);
    assert!(!kv.preallocate_kv_cache_per_layer(&[(2, 64)], 32));
    assert_eq!(kv.kv_cache_len(), 0);
    assert_eq!(kv.cache.as_ref().map(|c| c.max_seq), Some(32));
    assert!(kv.preallocate_kv_cache_per_layer(&[(2, 64)], 33));
    assert!(kv.preallocate_kv_cache_per_layer(&[(2, 64), (2, 64)], 32));
}

#[test]
fn switches_follow_the_settings() {
    let unset = DecodeSettings {
        q4k_mmvq: None,
        q6k_mmvq: None,
        prefill_tensor_cores: None,
        decode_host_fallback: None,
        decode_graph: None,
        prefill_host_fallback: None,
        prefill_batched_attn: None,
        spec_batched: None,
        spec_batched_min_n: None,
        spec_scratch: None,
        spec_graph: None,
    };
    assert_eq!(DecodeFlags::from_settings(&unset), flags());
    let set = DecodeSettings {
        q4k_mmvq: Some("0"),
        prefill_tensor_cores: Some("1"),
        decode_host_fallback: Some("yes"),
        spec_batched_min_n: Some("9"),
        spec_graph: Some("1"),
        ..unset
    };
    let f = DecodeFlags::from_settings(&set);
    assert!(!f.q4k_mmvq && f.tensor_cores && !f.host_fallback && f.spec_graph);
    assert_eq!(f.spec_batched_min_n, 9);
}

fn of(lens: &[(Buf, usize)], b: Buf) -> usize {
    lens.iter().rev().find(|(n, _)| *n == b).map(|(_, l)| *l).expect("not written")
}

/// Goes through a program and keeps the length of every buffer that was written.
fn walk(ops: &[DeviceOp], mut lens: Vec<(Buf, usize)>) {
    for op in ops {
        match *op {
            DeviceOp::BeginLayer { .. } => {}
            DeviceOp::Upload { len } => lens.push((Buf::H, len)),
            DeviceOp::RmsNorm { src, dst, rows, dim, .. } => {
                assert_eq!(of(&lens, src), rows * dim);
                lens.push((dst, rows * dim));
            }
            DeviceOp::QuantizeQ8 { src, dst, n, .. } => {
                assert_eq!((of(&lens, src), n % 32), (n, 0));
                lens.push((dst, n));
            }
            DeviceOp::Project { src, packed_src, dst, rows_in, rows, cols, .. } => {
                assert_eq!(of(&lens, src), rows_in * cols);
                if let Some(p) = packed_src {
                    assert_eq!(of(&lens, p), cols);
                }
                lens.push((dst, rows_in * rows));
            }
            DeviceOp::HostProject { src, dst, rows, cols, .. } => {
                assert_eq!(of(&lens, src), cols);
                lens.push((dst, rows));
            }
            DeviceOp::QkvRmsProj { q_dim, kv_dim, dim, .. } => {
                assert_eq!(of(&lens, Buf::H), dim);
                lens.extend([(Buf::Q, q_dim), (Buf::K, kv_dim), (Buf::V, kv_dim)]);
            }
            DeviceOp::Attention { call, q, k, v, dst, rows, .. } => {
                let (q_len, kv_len) =
                    (rows * call.num_q_heads * call.head_dim, rows * call.num_kv_heads * call.head_dim);
                assert_eq!((of(&lens, q), of(&lens, k), of(&lens, v)), (q_len, kv_len, kv_len));
                lens.push((dst, q_len));
            }
            DeviceOp::Add { src, len } => {
                assert_eq!((of(&lens, Buf::H), of(&lens, src)), (len, len));
            }
            DeviceOp::NormAdd { src, dim, .. } => {
                assert_eq!((of(&lens, Buf::H), of(&lens, src)), (dim, dim));
            }
            DeviceOp::GateUp { n, .. } => {
                assert_eq!((of(&lens, Buf::Gate), of(&lens, Buf::Up)), (n, n));
                lens.push((Buf::Act, n));
            }
            DeviceOp::Scale { len, .. } | DeviceOp::Download { len } => {
                assert_eq!(of(&lens, Buf::H), len);
            }
            DeviceOp::Reserve { dst, len } => lens.push((dst, len)),
            DeviceOp::CopyRange { src, src_off, dst, dst_off, len } => {
                assert!(src_off + len <= of(&lens, src) && dst_off + len <= of(&lens, dst));
            }
        }
    }
}

#[test]
fn planned_programs_find_their_inputs() {
    let mut wide = layer();
    wide.num_q_heads = 8;
    wide.has_post_norms = true;
    let layers = [layer(), wide];
    let c = call();
    walk(&plan_decode(&flags(), &c, &layers, 3, 64), Vec::new());
    for attn in [SeqAttn::Batched, SeqAttn::PerPosition, SeqAttn::AtDevicePos, SeqAttn::Tree] {
        let pass = SeqPass { base_pos: 2, seq_len: 5, attn };
        walk(&plan_seq(&flags(), &c, &layers, &pass, 64), Vec::new());
    }
    let same = [layer(), layer()];
    let d = graph_layer_dims(&c, &same[0]);
    let ops = run_decode_pipeline_into_scratch(&c, &d, &same, 64);
    walk(&ops, vec![(Buf::H, c.hidden)]);
    walk(&decode_token_host_fallback(&c, &layers, 3, 64), Vec::new());
}
