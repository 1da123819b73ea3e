use larql_compute::attn::{
    choose_attn_d_split, decode_attention, fused_decode_attention, fused_decode_attention_device,
    fused_decode_attention_device_kv, fused_decode_attention_device_kv_into,
    fused_prefill_attention_seq_device, fused_prefill_attention_seq_device_into,
    fused_prefill_attention_seq_device_into_pos_dev,
    fused_prefill_attention_tree_seq_device_into_pos_dev, qkv_rms_proj, softmax_inplace,
    AttentionOpts, DecodeAttnLens, FusedDecodeAttentionOpts, QkvProjDims, SeqAttnLens,
};
use larql_compute::attn_opts::attn_opts;
use larql_compute::attn_tree::{tree_decode_attention, TreeAttentionOpts};
use larql_compute::error::CudaInitError;
use larql_compute::program::{AttnCall, AttnKind};
use larql_compute::sampling::{verify_tree_gpu, verify_tree_gpu_parallel, GpuAcceptedSpan};

fn detail(e: &CudaInitError) -> &str {
    match e {
        CudaInitError::DriverMissing(s) => s.as_str(),
        _ => panic!("not a DriverMissing"),
    }
}

fn opts(pos: usize, max_seq: usize) -> FusedDecodeAttentionOpts {
    FusedDecodeAttentionOpts {
        num_q_heads: 4,
        num_kv_heads: 2,
        head_dim: 64,
        pos,
        max_seq,
        rotary_dim: 64,
        rope_base_bits: 10000.0f32.to_bits(),
        eps_bits: 1e-6f32.to_bits(),
        qk_norm_offset_bits: 0,
        attn_scale_bits: 0.125f32.to_bits(),
        softcap_bits: 0,
    }
}

fn lens(max_seq: usize) -> DecodeAttnLens {
    DecodeAttnLens {
        q: 256,
        k_new: 128,
        v_new: 128,
        k_cache: max_seq * 128,
        v_cache: max_seq * 128,
        q_norm: None,
        k_norm: None,
    }
}

#[test]
fn heads_are_split_to_fill_the_device() {
    assert_eq!(choose_attn_d_split(None, 4, 64), 8);
    assert_eq!(choose_attn_d_split(None, 32, 64), 1);
    assert_eq!(choose_attn_d_split(None, 0, 64), 16);
    assert_eq!(choose_attn_d_split(Some("2"), 4, 64), 2);
    assert_eq!(choose_attn_d_split(Some("0"), 4, 64), 1);
    assert_eq!(choose_attn_d_split(Some("3"), 4, 64), 8);
    assert_eq!(choose_attn_d_split(Some("junk"), 4, 64), 8);
    assert_eq!(choose_attn_d_split(Some("16"), 4, 40), 1);
}

#[test]
fn decode_attention_takes_tiles_for_long_contexts() {
    let l = fused_decode_attention_device_kv(None, &lens(32_768), &opts(100, 32_768));
    assert!(!l.tiled);
    assert_eq!(l.cfg.grid_dim, (4, 8, 1));
    assert_eq!(l.cfg.shared_mem_bytes, (101 + 256 + 64) * 4);
    assert_eq!((l.pos, l.max_seq), (100, 101));
    let l = fused_decode_attention_device_kv(None, &lens(32_768), &opts(16_383, 32_768));
    assert!(!l.tiled);
    let l = fused_decode_attention_device_kv(None, &lens(32_768), &opts(16_384, 32_768));
    assert!(l.tiled);
    assert_eq!(l.cfg.shared_mem_bytes, (1024 + 256 + 64) * 4);
    assert_eq!(l.max_seq, 32_768);
    let normed = DecodeAttnLens { q_norm: Some(64), k_norm: Some(64), ..lens(8) };
    assert_eq!(fused_decode_attention(None, &normed, &opts(0, 8)).use_qk_norm, 1);
    assert_eq!(fused_decode_attention_device(None, &lens(8), &opts(0, 8)).use_qk_norm, 0);
    let l = fused_decode_attention_device_kv_into(Some("1"), &normed, 1, 256, true, &opts(0, 8));
    assert_eq!((l.d_split, l.use_qk_norm), (1, 1));
}

#[test]
fn projections_and_softmax_are_laid_out() {
    let d = QkvProjDims { hidden: 8, q_dim: 16, kv_dim: 4 };
    let l = qkv_rms_proj(8, 8, 128, 32, 32, d);
    assert_eq!(l.cfg.grid_dim, (24, 1, 1));
    assert_eq!(l.cfg.shared_mem_bytes, 1024);
    let s = softmax_inplace(3, 5, true, false);
    assert_eq!((s.n_rows, s.n_cols, s.causal), (3, 5, 1));
    assert_eq!(s.cfg.grid_dim.0, 3);
    let a = decode_attention(6, 15, 15, 2, 5, 3, AttentionOpts::default(), false);
    assert_eq!((a.scores.m, a.scores.n, a.scores.k), (5, 2, 3));
    assert_eq!((a.weighted.m, a.weighted.n, a.weighted.k), (3, 2, 5));
    assert_eq!(a.softmax.causal, AttentionOpts::default().causal as i32);
}

fn seq_lens(seq_len: usize, max_seq: usize) -> SeqAttnLens {
    SeqAttnLens {
        q_seq: seq_len * 256,
        k_seq: seq_len * 128,
        v_seq: seq_len * 128,
        k_cache: max_seq * 128,
        v_cache: max_seq * 128,
        out_seq: seq_len * 256,
    }
}

#[test]
fn runs_of_positions_are_laid_out() {
    let o = opts(0, 64);
    let l = fused_prefill_attention_seq_device_into(&seq_lens(4, 64), None, None, 10, 4, &o)
        .unwrap();
    assert!(!l.tiled);
    assert_eq!((l.seq_len, l.max_seq), (4, 14));
    let (l2, out_len) =
        fused_prefill_attention_seq_device(&seq_lens(4, 64), None, None, 10, 4, &o).unwrap();
    assert_eq!(l2.max_seq, 14);
    assert_eq!(out_len, 1024);
    assert!(fused_prefill_attention_seq_device_into(&seq_lens(4, 64), None, None, 61, 4, &o)
        .is_err());
    let short = SeqAttnLens { q_seq: 1, ..seq_lens(4, 64) };
    assert!(fused_prefill_attention_seq_device_into(&short, None, None, 0, 4, &o).is_err());
    assert!(fused_prefill_attention_seq_device(&short, None, None, 0, 4, &o).is_err());
}

#[test]
fn both_norms_or_none_are_used() {
    let o = opts(10, 64);
    let l = seq_lens(4, 64);
    for (q, k, used) in
        [(Some(64), Some(64), 1), (Some(64), None, 0), (None, Some(64), 0), (None, None, 0)]
    {
        let into = fused_prefill_attention_seq_device_into(&l, q, k, 10, 4, &o).unwrap();
        let (fresh, _) = fused_prefill_attention_seq_device(&l, q, k, 10, 4, &o).unwrap();
        assert_eq!(into.use_qk_norm, used);
        assert_eq!(into, fresh);
        let at = fused_prefill_attention_seq_device_into_pos_dev(&l, q, k, 4, &o).unwrap();
        assert_eq!(at.use_qk_norm, used);
        let tree =
            fused_prefill_attention_tree_seq_device_into_pos_dev(&l, 4, q, k, 4, &o).unwrap();
        assert_eq!(tree.use_qk_norm, used);
    }
}

#[test]
fn the_device_says_where_a_run_starts() {
    let l = fused_prefill_attention_seq_device_into_pos_dev(
        &seq_lens(4, 128), None, None, 4, &opts(0, 128),
    )
    .unwrap();
    assert_eq!((l.seq_len, l.max_seq, l.tiled), (4, 128, false));
    assert_eq!(l.attend.shared_mem_bytes, (128 + 256 + 64) * 4);
    let long = fused_prefill_attention_seq_device_into_pos_dev(
        &seq_lens(4, 20_000), None, None, 4, &opts(0, 20_000),
    )
    .unwrap();
    assert_eq!((long.max_seq, long.tiled), (20_000, true));
    assert_eq!(long.attend.shared_mem_bytes, (1024 + 256 + 64) * 4);
    let o = opts(10, 64);
    let short = SeqAttnLens { q_seq: 1, ..seq_lens(4, 64) };
    assert_eq!(
        detail(
            &fused_prefill_attention_seq_device_into_pos_dev(&short, None, None, 4, &o).unwrap_err()
        ),
        "fused_prefill_attention_seq_device_into_pos_dev: shape mismatch"
    );
}

#[test]
fn trees_have_up_to_64_nodes() {
    let o = opts(0, 256);
    let go = |n: usize, ancestors: usize| {
        fused_prefill_attention_tree_seq_device_into_pos_dev(
            &seq_lens(n, 256), ancestors, None, None, n, &o,
        )
    };
    assert!(go(64, 64).is_ok());
    assert_eq!(
        detail(&go(65, 65).unwrap_err()),
        "fused_prefill_attention_tree_seq_device_into_pos_dev: seq_len > 64"
    );
    assert_eq!(
        detail(&go(4, 3).unwrap_err()),
        "fused_prefill_attention_tree_seq_device_into_pos_dev: shape mismatch"
    );
}

#[test]
fn masks_cover_the_context() {
    let o = TreeAttentionOpts {
        q_tokens: 3,
        num_q_heads: 4,
        num_kv_heads: 2,
        head_dim: 8,
        ctx_len: 33,
        words_per_row: 2,
        attn_scale_bits: 0,
        softcap_bits: 0,
    };
    let l = tree_decode_attention(96, 528, 528, 6, &o).unwrap();
    assert_eq!(l.cfg.grid_dim, (4, 3, 1));
    assert_eq!(l.cfg.shared_mem_bytes, (33 + 128) * 4);
    assert_eq!(l.out_len, 96);
    assert_eq!(
        detail(&tree_decode_attention(96, 528, 528, 5, &o).unwrap_err()),
        "tree_decode_attention: mask len 5 != expected 6"
    );
    let narrow = TreeAttentionOpts { words_per_row: 1, ..o };
    assert_eq!(
        detail(&tree_decode_attention(96, 528, 528, 3, &narrow).unwrap_err()),
        "tree_decode_attention: words_per_row 1 != ctx_len.div_ceil(32) 2"
    );
    assert!(tree_decode_attention(95, 528, 528, 6, &o).is_err());
    assert!(tree_decode_attention(96, 527, 528, 6, &o).is_err());
}

#[test]
fn paths_are_checked_before_they_are_verified() {
    let rows = vec![vec![0.5f32, 0.5], vec![0.25, 0.75]];
    let l = verify_tree_gpu(&rows, &[1, 0], &[0.5, 0.25], 2).unwrap();
    assert_eq!(l.p_target, vec![0.5, 0.5, 0.25, 0.75]);
    assert_eq!((l.path_len, l.vocab, l.accepted_len), (2, 2, 2));
    assert_eq!(l.cfg.block_dim, (1, 1, 1));
    let l = verify_tree_gpu_parallel(&rows, &[1, 0], &[0.5, 0.25], 2).unwrap();
    assert_eq!(l.cfg.block_dim, (1024, 1, 1));
    assert_eq!(l.cfg.shared_mem_bytes, 4096);
    assert_eq!(
        detail(&verify_tree_gpu(&rows, &[1], &[0.5, 0.25], 2).unwrap_err()),
        "verify_tree_gpu shape mismatch: path_len=2 drafts=1 pdraft=2"
    );
    assert_eq!(
        detail(&verify_tree_gpu(&rows, &[1, 0], &[0.5, 0.25], 3).unwrap_err()),
        "verify_tree_gpu row 0: got vocab=2, expected 3"
    );
    assert_eq!(
        detail(&verify_tree_gpu_parallel(&rows[..0], &[], &[], 3).unwrap_err()),
        "verify_tree_gpu_parallel shape mismatch: path_len=0"
    );
    let span = GpuAcceptedSpan::from_device(vec![5, -1], &[7], &[-1]);
    assert_eq!(span, GpuAcceptedSpan { accepted: vec![5, -1], corrected: 7, bonus: -1 });
}

fn program_call() -> AttnCall {
    AttnCall {
        num_q_heads: 8,
        num_kv_heads: 2,
        head_dim: 64,
        max_seq: 4096,
        rotary_dim: 64,
        rope_base_bits: 10000.0f32.to_bits(),
        eps_bits: 1e-6f32.to_bits(),
        qk_norm_offset_bits: 0,
        attn_scale_bits: 0.125f32.to_bits(),
        qk_norm: false,
    }
}

#[test]
fn settings_hold_the_position_that_the_host_knows() {
    let call = program_call();
    assert_eq!(attn_opts(&AttnKind::Decode { pos: 17 }, &call).pos, 17);
    assert_eq!(attn_opts(&AttnKind::DecodeThroughHost { pos: 3 }, &call).pos, 3);
    assert_eq!(attn_opts(&AttnKind::DecodeAtDevicePos, &call).pos, 0);
    assert_eq!(attn_opts(&AttnKind::Run { base_pos: 5 }, &call).pos, 0);
    assert_eq!(attn_opts(&AttnKind::RunAtDevicePos { base_pos: 40 }, &call).pos, 40);
    assert_eq!(attn_opts(&AttnKind::TreeAtDevicePos { base_pos: 41 }, &call).pos, 41);
}

#[test]
fn recorded_decode_launch_is_good_for_every_position() {
    let call = program_call();
    let opts = attn_opts(&AttnKind::DecodeAtDevicePos, &call);
    assert_eq!((opts.max_seq, opts.softcap_bits), (4096, 0));
    assert_eq!(opts.attn_scale_bits, 0.125f32.to_bits());
    let lens = |max_seq: usize| DecodeAttnLens {
        q: 512,
        k_new: 128,
        v_new: 128,
        k_cache: max_seq * 128,
        v_cache: max_seq * 128,
        q_norm: Some(64),
        k_norm: Some(64),
    };
    let l = fused_decode_attention_device_kv_into(None, &lens(4096), 1, 512, false, &opts);
    assert_eq!((l.max_seq, l.tiled), (4096, false));
    assert_eq!(l.cfg.shared_mem_bytes, (4096 + 256 + 64) * 4);
    let long = FusedDecodeAttentionOpts { max_seq: 30_000, ..opts };
    let l = fused_decode_attention_device_kv_into(None, &lens(30_000), 1, 512, false, &long);
    assert_eq!((l.max_seq, l.tiled), (30_000, true));
    assert_eq!(l.cfg.shared_mem_bytes, (1024 + 256 + 64) * 4);
}
