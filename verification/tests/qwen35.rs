use larql_compute::deltanet::{
    causal_conv1d_step, deltanet_step, l2_normalize_per_head, rms_norm_heads, RecurrenceLens,
};
use larql_compute::error::CudaInitError;
use larql_compute::launch::LaunchConfig;
use larql_compute::layer::QuantFormat;
use larql_compute::moe::{
    qwen35_ffn_lazy_block, qwen35_moe_ffn_batch, DirectKernel, FfnOp, FfnWeight, MoeFfnExpert, MoeOp,
};
use larql_compute::qwen35_block::{
    deltanet_postproj_step_cached, deltanet_recurrence_block_cached, launch_reshape, DeltaBuf,
    DeltaDims, DeltaOp, PostprojLens, RecurrenceBlockLens,
};
use larql_compute::qwen35_iso3::{
    qwen35_gqa_decode_step_iso3, IsoCall, IsoPhase, QuantSlab, QuantSlabs,
};
use larql_compute::qwen35_kv::{
    qwen35_attention_prefill_batch, qwen35_gqa_decode_step, GqaCall, GqaPhase, GqaRoute, KvSlab,
    KvSlabs, PrefillCall,
};

fn detail(e: &CudaInitError) -> &str {
    match e {
        CudaInitError::DriverMissing(s) => s.as_str(),
        _ => panic!("not a DriverMissing"),
    }
}

fn launch(grid: (u32, u32, u32), block: u32, shared: u32) -> LaunchConfig {
    LaunchConfig { grid_dim: grid, block_dim: (block, 1, 1), shared_mem_bytes: shared }
}

#[test]
fn conv1d_step_checks_and_launches() {
    assert_eq!(causal_conv1d_step(false, 12, 9, 3, 4, 3).unwrap(), launch((1, 1, 1), 256, 0));
    assert_eq!(
        causal_conv1d_step(true, 4 * 10240, 3 * 10240, 10240, 4, 10240).unwrap(),
        launch((40, 1, 1), 256, 0)
    );
    assert_eq!(
        detail(&causal_conv1d_step(false, 12, 9, 4, 4, 3).unwrap_err()),
        "invalid conv1d shape weight=12 state=9 new=4 d_conv=4 conv_dim=3"
    );
    assert_eq!(
        detail(&causal_conv1d_step(true, 0, 0, 3, 0, 3).unwrap_err()),
        "invalid cached conv1d shape weight=0 state=0 new=3 d_conv=0 conv_dim=3"
    );
}

#[test]
fn deltanet_step_checks_and_launches() {
    let (s, h_k, h_v) = (128, 16, 48);
    let lens = RecurrenceLens {
        q: s * h_k,
        k: s * h_k,
        v: s * h_v,
        log_g: h_v,
        beta: h_v,
        state: s * s * h_v,
    };
    assert_eq!(deltanet_step(false, &lens, s, h_k, h_v).unwrap(), launch((48, 1, 1), 256, 1024));
    let bad = RecurrenceLens { beta: 1, ..lens };
    assert_eq!(
        detail(&deltanet_step(false, &bad, s, h_k, h_v).unwrap_err()),
        "invalid deltanet shape q=2048 k=2048 v=6144 log_g=48 beta=1 state=786432 s=128 h_k=16 h_v=48"
    );
    assert_eq!(
        detail(&deltanet_step(true, &bad, s, h_k, h_v).unwrap_err()),
        "invalid cached deltanet shape q=2048 k=2048 v=6144 log_g=48 beta=1 state=786432 s=128 h_k=16 h_v=48"
    );
}

#[test]
fn head_norms_check_and_launch() {
    assert_eq!(l2_normalize_per_head(6, 3, 2).unwrap(), launch((2, 1, 1), 256, 1024));
    assert_eq!(
        detail(&l2_normalize_per_head(5, 3, 2).unwrap_err()),
        "invalid l2 shape x=5 head_dim=3 n_heads=2"
    );
    assert_eq!(rms_norm_heads(6, 3, 2, 3).unwrap(), launch((2, 1, 1), 256, 1024));
    assert_eq!(
        detail(&rms_norm_heads(6, 2, 2, 3).unwrap_err()),
        "invalid rms heads shape x=6 weight=2 num_heads=2 head_dim=3"
    );
    assert!(rms_norm_heads(0, 3, 0, 3).is_err());
}

fn dims() -> DeltaDims {
    DeltaDims { head_v_dim: 128, n_v_heads: 48, n_k_heads: 16, block_gqa: true }
}

fn postproj() -> PostprojLens {
    PostprojLens {
        qkv: 10240,
        conv_w: 4 * 10240,
        conv_state: 3 * 10240,
        log_g: 48,
        beta: 48,
        z: 6144,
        norm_w: 128,
        rec_state: 128 * 128 * 48,
    }
}

#[test]
fn postproj_chain_reads_the_three_slabs() {
    let ops = deltanet_postproj_step_cached(&postproj(), &dims(), 4).unwrap();
    assert_eq!(ops.len(), 11);
    assert_eq!(
        ops[0],
        DeltaOp::Conv1d { cfg: launch((40, 1, 1), 256, 0), d_conv: 4, conv_dim: 10240 }
    );
    assert_eq!(ops[1], DeltaOp::Silu { cfg: launch((40, 1, 1), 256, 0), n: 10240 });
    for (i, dst, n_heads, src_offset) in
        [(2, DeltaBuf::QDim, 16, 0), (3, DeltaBuf::KDim, 16, 2048), (4, DeltaBuf::VDim, 48, 4096)]
    {
        assert_eq!(
            ops[i],
            DeltaOp::HeadToDim {
                cfg: launch((2, n_heads as u32, 1), 64, 0),
                dst,
                head_dim: 128,
                n_heads,
                src_offset
            }
        );
    }
    assert_eq!(
        ops[5],
        DeltaOp::L2Norm {
            cfg: launch((16, 1, 1), 256, 1024),
            src: DeltaBuf::QDim,
            dst: DeltaBuf::QNorm,
            head_dim: 128,
            n_heads: 16,
            eps_bits: 1e-6f32.to_bits()
        }
    );
    assert_eq!(
        ops[7],
        DeltaOp::Recurrence {
            cfg: launch((48, 1, 1), 256, 1024),
            s: 128,
            h_k: 16,
            h_v: 48,
            block_gqa: 1
        }
    );
    assert_eq!(ops[10], DeltaOp::SiluMul { cfg: launch((24, 1, 1), 256, 0), n: 6144 });
    assert_eq!(
        ops[8],
        DeltaOp::DimToHead {
            cfg: launch_reshape(128, 48),
            head_dim: 128,
            n_heads: 48,
            src_offset: 0
        }
    );
}

#[test]
fn postproj_shape_is_checked() {
    let bad = PostprojLens { z: 1, ..postproj() };
    assert_eq!(
        detail(&deltanet_postproj_step_cached(&bad, &dims(), 4).unwrap_err()),
        "invalid postproj shape: qkv=10240 conv_w=40960 conv_state=30720 log_g=48 beta=48 z=1 \
         norm_w=128 rec_state=786432 d_conv=4 hd=128 h_v=48 h_k=16"
    );
    assert!(deltanet_postproj_step_cached(&postproj(), &dims(), 0).is_err());
}

#[test]
fn recurrence_block_is_the_tail_of_the_chain() {
    let lens = RecurrenceBlockLens {
        q: 2048,
        k: 2048,
        v: 6144,
        log_g: 48,
        beta: 48,
        norm_w: 128,
        rec_state: 128 * 128 * 48,
    };
    let tail = deltanet_recurrence_block_cached(&lens, &dims()).unwrap();
    let whole = deltanet_postproj_step_cached(&postproj(), &dims(), 4).unwrap();
    assert_eq!(tail[..], whole[5..10]);
    let bad = RecurrenceBlockLens { q: 1, ..lens };
    assert_eq!(
        detail(&deltanet_recurrence_block_cached(&bad, &dims()).unwrap_err()),
        "invalid recurrence_block shape: q=1 k=2048 v=6144 log_g=48 beta=48 norm_w=128 \
         rec_state=786432 hd=128 h_v=48 h_k=16"
    );
}

fn call(seq_len: usize, preseed: usize) -> GqaCall {
    GqaCall { cache_id: 7, max_seq: 8, q_dim: 16, kv_dim: 4, seq_len, preseed }
}

fn run(slabs: &mut KvSlabs, c: &GqaCall) -> Vec<GqaPhase> {
    let mut seen = Vec::new();
    let mut p = slabs.gqa_begin(c);
    while p != GqaPhase::Done && p != GqaPhase::Failed {
        seen.push(p);
        p = slabs.gqa_advance(c, p, true);
    }
    seen
}

#[test]
fn gqa_step_picks_its_slab() {
    let step = |q, k, seq_len, format: Option<&str>, preseed: Option<&str>| {
        qwen35_gqa_decode_step(7, 8, q, k, k, 4, 1, 4, seq_len, format, preseed)
    };
    assert_eq!(step(16, 12, 3, None, None), Some(GqaRoute::Half(call(3, 0))));
    assert_eq!(step(16, 12, 3, Some("iso3"), None), Some(GqaRoute::Iso3(call(3, 0))));
    assert_eq!(step(16, 12, 3, Some("f16"), Some("2")), Some(GqaRoute::Half(call(3, 2))));
    assert_eq!(step(16, 12, 3, None, Some("100")), Some(GqaRoute::Half(call(3, 5))));
    assert_eq!(step(16, 12, 3, None, Some("x")), Some(GqaRoute::Half(call(3, 0))));
    assert_eq!(step(15, 12, 3, None, None), None);
    assert_eq!(step(16, 11, 3, None, None), None);
    assert_eq!(step(16, 0, 0, None, None), None);
    assert_eq!(step(16, 36, 9, None, None), None);
}

#[test]
fn gqa_steps_upload_only_what_is_missing() {
    let mut s = KvSlabs::new();
    assert_eq!(
        run(&mut s, &call(1, 0)),
        vec![
            GqaPhase::AllocK { len: 32, fresh: true },
            GqaPhase::AllocV { len: 32, fresh: true },
            GqaPhase::Attend { pos: 0, row_start: 0 },
            GqaPhase::Fetch,
        ]
    );
    assert_eq!(
        run(&mut s, &call(2, 0)),
        vec![GqaPhase::Attend { pos: 1, row_start: 4 }, GqaPhase::Fetch]
    );
    assert_eq!(
        run(&mut s, &call(5, 0)),
        vec![
            GqaPhase::UploadK { dst: 0, len: 16 },
            GqaPhase::UploadV { dst: 0, len: 16 },
            GqaPhase::Attend { pos: 4, row_start: 16 },
            GqaPhase::Fetch,
        ]
    );
    assert_eq!(
        s.get(7),
        Some(KvSlab { k_len: 32, v_len: 32, max_seq: 8, kv_dim: 4, cached_seq_len: 5 })
    );
    s.reset(7);
    assert_eq!(s.get(7), None);
}

#[test]
fn gqa_rows_in_front_shift_the_slab() {
    let mut s = KvSlabs::new();
    let seen = run(&mut s, &call(1, 3));
    assert_eq!(seen[2], GqaPhase::Attend { pos: 3, row_start: 0 });
    assert_eq!(run(&mut s, &call(2, 3))[0], GqaPhase::Attend { pos: 4, row_start: 4 });
    assert_eq!(run(&mut s, &call(4, 3))[0], GqaPhase::UploadK { dst: 12, len: 12 });
    assert_eq!(s.get(7).unwrap().cached_seq_len, 7);
}

#[test]
fn gqa_failures_leave_what_was_there() {
    let mut s = KvSlabs::new();
    run(&mut s, &call(2, 0));
    let before = s.get(7);
    let c = call(3, 0);
    let p = s.gqa_begin(&c);
    assert_eq!(s.gqa_advance(&c, p, false), GqaPhase::Failed);
    assert_eq!(s.get(7), before);
    let wide = GqaCall { kv_dim: 8, ..call(1, 0) };
    let p = s.gqa_begin(&wide);
    assert_eq!(p, GqaPhase::AllocK { len: 64, fresh: false });
    let p = s.gqa_advance(&wide, p, true);
    assert_eq!(s.gqa_advance(&wide, p, false), GqaPhase::Failed);
    let left = s.get(7).unwrap();
    assert_eq!((left.k_len, left.v_len, left.kv_dim), (64, 32, 4));
}

#[test]
fn a_step_behind_a_prefill_goes_straight_to_attention() {
    let c = qwen35_attention_prefill_batch(7, 8, 2, 48, 12, 12, 4, 1, 4, 3).unwrap();
    assert_eq!(
        c,
        PrefillCall { cache_id: 7, max_seq: 8, base_pos: 2, q_dim: 16, kv_dim: 4, seq_len: 3 }
    );
    assert_eq!(qwen35_attention_prefill_batch(7, 8, 6, 48, 12, 12, 4, 1, 4, 3), None);
    assert_eq!(qwen35_attention_prefill_batch(7, 8, 2, 47, 12, 12, 4, 1, 4, 3), None);
    let mut s = KvSlabs::new();
    let mut p = s.prefill_begin(&c);
    let mut seen = Vec::new();
    while p != GqaPhase::Done {
        seen.push(p);
        p = s.prefill_advance(&c, p, true);
    }
    assert_eq!(seen[2], GqaPhase::Attend { pos: 2, row_start: 0 });
    assert_eq!(s.get(7).unwrap().cached_seq_len, 5);
    assert_eq!(run(&mut s, &call(6, 0))[0], GqaPhase::Attend { pos: 5, row_start: 20 });
}

fn iso(seq_len: usize, preseed: usize) -> IsoCall {
    let c = GqaCall { cache_id: 1, max_seq: 4, q_dim: 256, kv_dim: 128, seq_len, preseed };
    qwen35_gqa_decode_step_iso3(&c, Some(50)).unwrap()
}

fn run_iso(s: &mut QuantSlabs, c: &IsoCall) -> Vec<IsoPhase> {
    let mut seen = Vec::new();
    let mut p = s.iso_begin(c);
    while p != IsoPhase::Done && p != IsoPhase::Failed {
        seen.push(p);
        p = s.iso_advance(c, p, true);
    }
    seen
}

#[test]
fn iso_step_needs_whole_blocks() {
    let c = GqaCall { cache_id: 1, max_seq: 4, q_dim: 8, kv_dim: 100, seq_len: 1, preseed: 0 };
    assert_eq!(qwen35_gqa_decode_step_iso3(&c, Some(50)), None);
    let c = GqaCall { kv_dim: 128, ..c };
    assert_eq!(qwen35_gqa_decode_step_iso3(&c, None), None);
    assert_eq!(qwen35_gqa_decode_step_iso3(&c, Some(usize::MAX)), None);
    assert_eq!(
        qwen35_gqa_decode_step_iso3(&c, Some(50)),
        Some(IsoCall { call: c, packed_row_bytes: 50 })
    );
}

#[test]
fn iso_steps_pack_only_what_is_missing() {
    let mut s = QuantSlabs::new();
    assert_eq!(
        run_iso(&mut s, &iso(3, 1)),
        vec![
            IsoPhase::AllocK { bytes: 200, fresh: true },
            IsoPhase::AllocV { bytes: 200, fresh: true },
            IsoPhase::UploadPrev { elems: 256 },
            IsoPhase::PackPrevK { dst: 50, bytes: 100, elems: 256 },
            IsoPhase::PackPrevV { dst: 50, bytes: 100, elems: 256 },
            IsoPhase::UploadRow { row_start: 256 },
            IsoPhase::PackRowK { dst: 150 },
            IsoPhase::PackRowV { dst: 150 },
            IsoPhase::AllocWide { elems: 512 },
            IsoPhase::AllocScratchK { elems: 512 },
            IsoPhase::AllocScratchV { elems: 512 },
            IsoPhase::ExpandK { elems: 512 },
            IsoPhase::ConvertK,
            IsoPhase::ExpandV { elems: 512 },
            IsoPhase::ConvertV,
            IsoPhase::Attend { pos: 3, row_start: 256 },
            IsoPhase::Fetch,
        ]
    );
    assert_eq!(
        s.get(1),
        Some(QuantSlab {
            k_len: 200,
            v_len: 200,
            max_seq: 4,
            kv_dim: 128,
            packed_row_bytes: 50,
            cached_seq_len: 4
        })
    );
    let mut s = QuantSlabs::new();
    run_iso(&mut s, &iso(1, 0));
    let seen = run_iso(&mut s, &iso(2, 0));
    assert_eq!(seen[0], IsoPhase::UploadRow { row_start: 128 });
    assert_eq!(seen[3], IsoPhase::ExpandK { elems: 256 });
    assert_eq!(seen.len(), 9);
    s.reset(1);
    assert_eq!(s.get(1), None);
    assert_eq!(s.scratch.wide, Some(512));
}

#[test]
fn iso_failures_end_the_step() {
    let mut s = QuantSlabs::new();
    let c = iso(1, 0);
    let p = s.iso_begin(&c);
    assert_eq!(s.iso_advance(&c, p, false), IsoPhase::Failed);
    assert_eq!(s.get(1), None);
    run_iso(&mut s, &c);
    let c = iso(2, 0);
    let p = s.iso_begin(&c);
    let p = s.iso_advance(&c, p, true);
    assert_eq!(s.iso_advance(&c, p, false), IsoPhase::Failed);
    assert_eq!(s.get(1).unwrap().cached_seq_len, 1);
}

#[test]
fn a_single_block_gives_up_at_the_first_weight_without_a_kernel() {
    let block = |g, u, d| qwen35_ffn_lazy_block(8, g, 16, u, 16, d, 8, 8);
    let gate = FfnOp::Matvec {
        weight: FfnWeight::Gate,
        kernel: DirectKernel::Q4k,
        rows: 16,
        cols: 8,
    };
    let up = FfnOp::Matvec { weight: FfnWeight::Up, kernel: DirectKernel::Q5k, rows: 16, cols: 8 };
    let down = FfnOp::Matvec {
        weight: FfnWeight::Down,
        kernel: DirectKernel::Q4k,
        rows: 8,
        cols: 16,
    };
    assert_eq!(
        block(QuantFormat::Q4_K, QuantFormat::Q5_K, QuantFormat::Q4_K),
        Some(vec![FfnOp::Upload { len: 8 }, gate, up, FfnOp::GateUp { n: 16 }, down, FfnOp::Fetch])
    );
    assert_eq!(
        block(QuantFormat::Q4_K, QuantFormat::Q6_K, QuantFormat::Q4_K),
        Some(vec![FfnOp::Upload { len: 8 }, gate, FfnOp::GiveUp { weight: FfnWeight::Up }])
    );
    assert_eq!(
        block(QuantFormat::F32, QuantFormat::Q6_K, QuantFormat::Q4_K),
        Some(vec![FfnOp::Upload { len: 8 }, FfnOp::GiveUp { weight: FfnWeight::Gate }])
    );
    let last = block(QuantFormat::Q4_K, QuantFormat::Q5_K, QuantFormat::Q8_0).unwrap();
    assert_eq!(last[4], FfnOp::GiveUp { weight: FfnWeight::Down });
    let q = QuantFormat::Q4_K;
    assert_eq!(qwen35_ffn_lazy_block(7, q, 16, q, 16, q, 8, 8), None);
    assert_eq!(qwen35_ffn_lazy_block(8, q, 16, q, 15, q, 8, 8), None);
}

#[test]
fn experts_take_the_streams_in_turn() {
    let e = MoeFfnExpert {
        gate_format: QuantFormat::Q4_K,
        up_format: QuantFormat::Q4_K,
        down_format: QuantFormat::Q5_K,
    };
    let ops = qwen35_moe_ffn_batch(8, 8, 16, &[e, e, e], 2).unwrap();
    assert_eq!(ops.len(), 1 + 9 + 1 + 12 + 3);
    assert_eq!(ops[0], MoeOp::Upload { len: 8 });
    assert_eq!(
        ops[3],
        MoeOp::Prewarm { expert: 0, weight: FfnWeight::Down, kernel: DirectKernel::Q5k }
    );
    assert_eq!(ops[10], MoeOp::Sync);
    assert_eq!(
        ops[15],
        MoeOp::Matvec {
            stream: 1,
            expert: 1,
            weight: FfnWeight::Gate,
            kernel: DirectKernel::Q4k,
            rows: 16,
            cols: 8
        }
    );
    assert_eq!(
        ops[22],
        MoeOp::Matvec {
            stream: 0,
            expert: 2,
            weight: FfnWeight::Down,
            kernel: DirectKernel::Q5k,
            rows: 8,
            cols: 16
        }
    );
    assert_eq!(ops[24], MoeOp::Fetch { stream: 1, expert: 1 });
    assert_eq!(ops[25], MoeOp::Fetch { stream: 0, expert: 2 });
}

#[test]
fn a_batch_of_experts_is_refused_where_it_cannot_run() {
    let e = MoeFfnExpert {
        gate_format: QuantFormat::Q4_K,
        up_format: QuantFormat::Q4_K,
        down_format: QuantFormat::Q5_K,
    };
    let bad = MoeFfnExpert { up_format: QuantFormat::Q6_K, ..e };
    assert_eq!(qwen35_moe_ffn_batch(7, 8, 16, &[e], 2), None);
    assert_eq!(qwen35_moe_ffn_batch(8, 8, 16, &[], 2), None);
    assert_eq!(qwen35_moe_ffn_batch(8, 8, 16, &[e], 0), None);
    assert_eq!(qwen35_moe_ffn_batch(8, 8, 16, &[e, bad], 2), None);
    assert!(qwen35_moe_ffn_batch(8, 8, 16, &[e], 1).is_some());
}
