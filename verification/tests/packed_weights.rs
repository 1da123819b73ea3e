use larql_compute::dequant::{dequant_q4_kf, PackedElem};
use larql_compute::error::CudaInitError;
use larql_compute::launch::LaunchConfig;
use larql_compute::matmul::{
    gemv, gemv_device_w, matmul, matmul_transb, matmul_transb_device_inout_f16_into, BlasOp,
    GemmConfig, GemvConfig,
};
use larql_compute::oxide_kernels::{masked, pow2_i32, row_range};
use larql_compute::packed::PackedRow;
use larql_compute::q4k_batched::matvec_batched;
use larql_compute::q4k_direct::{is_traced, matvec_device_on_stream, matvec_pair};
use larql_compute::q4k_mmvq::{choose_rows_per_block, compile_arch, q4k_mmvq_use_coop};
use larql_compute::quant_matvec::MatvecWay::{CachedGemm, CachedGemv, Direct, ExpandGemv};
use larql_compute::quant_matvec::{
    has_q4, q4_matvec, q4k_matmul, q4k_matmul_softmax, q4k_matvec, q4kf_matvec, q5k_matvec,
    q6k_matvec, q8_0_matvec, softmax_inplace_batched, MatmulWay, RowRun, RowStep,
    SoftmaxWay,
};

fn detail(e: &CudaInitError) -> &str {
    match e {
        CudaInitError::DriverMissing(s) => s.as_str(),
        _ => panic!("not a DriverMissing"),
    }
}

#[test]
fn cuda_op_constants_are_distinct() {
    assert_ne!(
        cudarc::cublas::sys::cublasOperation_t::CUBLAS_OP_N as i32,
        cudarc::cublas::sys::cublasOperation_t::CUBLAS_OP_T as i32
    );
    assert_ne!(BlasOp::N, BlasOp::T);
}

/// A column-major GEMM, as the BLAS library computes it.
fn blas(cfg: &GemmConfig, first: &[i64], second: &[i64]) -> Vec<i64> {
    let at = |op: BlasOp, ld: i32, i: i32, p: i32| -> usize {
        match op {
            BlasOp::N => (i + p * ld) as usize,
            BlasOp::T => (p + i * ld) as usize,
        }
    };
    let mut c = vec![0; (cfg.ldc * cfg.n) as usize];
    for i in 0..cfg.m {
        for j in 0..cfg.n {
            let mut sum = 0;
            for p in 0..cfg.k {
                sum += first[at(cfg.transa, cfg.lda, i, p)] * second[at(cfg.transb, cfg.ldb, p, j)];
            }
            c[(i + j * cfg.ldc) as usize] = sum;
        }
    }
    c
}

#[test]
fn products_come_out_row_major() {
    let a: Vec<i64> = (1..=6).collect();
    let b: Vec<i64> = (7..=18).collect();
    let (m, n, k) = (2usize, 4usize, 3usize);
    let c = blas(&matmul(6, 12, m, n, k), &b, &a);
    let mut want = vec![0; m * n];
    for r in 0..m {
        for col in 0..n {
            for p in 0..k {
                want[r * n + col] += a[r * k + p] * b[p * n + col];
            }
        }
    }
    assert_eq!(c, want);
    let c = blas(&matmul_transb(6, 12, m, n, k), &b, &a);
    let mut want = vec![0; m * n];
    for r in 0..m {
        for col in 0..n {
            for p in 0..k {
                want[r * n + col] += a[r * k + p] * b[col * k + p];
            }
        }
    }
    assert_eq!(c, want);
    let y = blas(&gemv(12, 3, 4, 3), &b, &a[..3]);
    assert_eq!(y, want[..4]);
}

#[test]
fn gemv_on_the_device_transposes() {
    assert_eq!(
        gemv_device_w(12, 3, 4, 3),
        GemvConfig { trans: BlasOp::T, m: 3, n: 4, lda: 3, incx: 1, incy: 1 }
    );
    assert!(matmul_transb_device_inout_f16_into(6, 12, 8, 2, 4, 3).is_ok());
    assert_eq!(
        detail(&matmul_transb_device_inout_f16_into(6, 12, 7, 2, 4, 3).unwrap_err()),
        "matmul_transb_device_inout_f16_into: c.len=7 < m*n=8"
    );
}

#[test]
fn q4_kf_blocks_are_taken_apart() {
    let mut data = vec![0u8; 320];
    for j in 0..8 {
        data[160 + 2 * j] = j as u8;
        data[160 + 2 * j + 1] = 0x10;
        data[160 + 16 + 2 * j] = j as u8;
        data[160 + 16 + 2 * j + 1] = 0x20;
    }
    for q in 0..128 {
        data[160 + 32 + q] = (q as u8).wrapping_mul(37);
    }
    let v = dequant_q4_kf(&data, 512).unwrap();
    assert_eq!(v.len(), 512);
    assert_eq!(v[0], PackedElem { scale: 0, min: 0, code: 0 });
    for g in 0..4usize {
        for l in 0..32usize {
            let byte = data[160 + 32 + g * 32 + l];
            let lo = v[256 + (2 * g) * 32 + l];
            let hi = v[256 + (2 * g + 1) * 32 + l];
            assert_eq!(
                lo,
                PackedElem {
                    scale: 0x1000 + 2 * g as u16,
                    min: 0x2000 + 2 * g as u16,
                    code: byte & 0x0f
                }
            );
            assert_eq!(
                hi,
                PackedElem {
                    scale: 0x1001 + 2 * g as u16,
                    min: 0x2001 + 2 * g as u16,
                    code: byte >> 4
                }
            );
        }
    }
    assert_eq!(dequant_q4_kf(&data[160..], 256).unwrap()[..], v[256..]);
}

#[test]
fn q4_kf_sizes_are_checked() {
    assert_eq!(
        detail(&dequant_q4_kf(&[], 100).unwrap_err()),
        "dequant_q4_kf: n_elements 100 not multiple of 256"
    );
    assert_eq!(
        detail(&dequant_q4_kf(&[0; 159], 256).unwrap_err()),
        "dequant_q4_kf: short buffer: 159 < 160"
    );
    assert_eq!(dequant_q4_kf(&[], 0).unwrap().len(), 0);
}

#[test]
fn rows_find_their_ways() {
    assert!(q4_matvec(64, 2, 64) && !q4_matvec(63, 2, 64) && !q4_matvec(64, 3, 64));
    assert!(!q4_matvec(65, 2, 65));
    assert_eq!(q4k_matvec(8, 8, None), Some(vec![Direct, CachedGemm]));
    assert_eq!(q4k_matvec(8, 8, Some("1")), Some(vec![ExpandGemv]));
    assert_eq!(q4k_matvec(7, 8, None), None);
    assert_eq!(q4kf_matvec(8, 8), Some(ExpandGemv));
    assert_eq!(q4kf_matvec(7, 8), None);
    assert_eq!(q5k_matvec(8, 8), Some(Direct));
    assert_eq!(q5k_matvec(9, 8), None);
    assert_eq!(q8_0_matvec(8, 8, None), Some(vec![Direct, CachedGemv]));
    assert_eq!(q8_0_matvec(8, 8, Some("1")), Some(vec![CachedGemv]));
    assert_eq!(q8_0_matvec(9, 8, None), None);
    assert_eq!(q6k_matvec(8, 8, None), Some(CachedGemv));
    assert_eq!(q6k_matvec(8, 8, Some("1")), Some(ExpandGemv));
    assert_eq!(q6k_matvec(9, 8, Some("1")), None);
    assert!(has_q4());
}

#[test]
fn runs_of_rows_find_their_ways() {
    assert_eq!(q4k_matmul(0, 8, 0), None);
    assert_eq!(q4k_matmul(8, 8, 1), Some(MatmulWay::OneRow));
    assert_eq!(q4k_matmul(24, 8, 3), Some(MatmulWay::GemmOrRows));
    assert_eq!(q4k_matmul(23, 8, 3), None);
    assert_eq!(q4k_matmul_softmax(8, 8, 1), Some(SoftmaxWay::ProductThenSoftmax));
    assert_eq!(q4k_matmul_softmax(24, 8, 3), Some(SoftmaxWay::Fused));
    assert_eq!(q4k_matmul_softmax(0, 8, 0), None);
    assert!(softmax_inplace_batched(6, 2, 3));
    assert!(!softmax_inplace_batched(5, 2, 3) && !softmax_inplace_batched(0, 0, 3));
}

#[test]
fn rows_line_up() {
    let mut run: RowRun<u32> = RowRun::begin(3, 4, 2);
    let mut k = 0;
    while let RowStep::Row(from, to) = run.step() {
        assert_eq!((from, to), (4 * k, 4 * k + 4));
        run.on_row(Some(vec![10 * k as u32, 10 * k as u32 + 1]));
        k += 1;
    }
    assert_eq!(run.step(), RowStep::Done);
    assert_eq!(run.out, vec![0, 1, 10, 11, 20, 21]);
    let mut run: RowRun<u32> = RowRun::begin(3, 4, 2);
    run.on_row(Some(vec![1]));
    assert_eq!(run.step(), RowStep::Failed);
    let mut run: RowRun<u32> = RowRun::begin(3, 4, 2);
    run.on_row(None);
    assert_eq!(run.step(), RowStep::Failed);
}

#[test]
fn direct_matvec_checks_and_launches() {
    let l = matvec_device_on_stream(5 * 2 * 144, 512, 5, 512).unwrap();
    assert_eq!(
        l.cfg,
        LaunchConfig { grid_dim: (2, 1, 1), block_dim: (128, 4, 1), shared_mem_bytes: 2048 }
    );
    assert_eq!((l.rows, l.hidden, l.blocks_per_row), (5, 512, 2));
    assert_eq!(
        detail(&matvec_device_on_stream(0, 640, 5, 640).unwrap_err()),
        "invalid q4k matvec shape rows=5 hidden=640 x_len=640"
    );
    assert_eq!(
        detail(&matvec_device_on_stream(7, 512, 5, 512).unwrap_err()),
        "q4k byte length mismatch: got 7, expected 1440"
    );
    assert_eq!(
        detail(&matvec_device_on_stream(7, 512, usize::MAX, 512).unwrap_err()),
        "q4k byte size overflow"
    );
    assert!(larql_compute::q5k_direct::matvec_device(176, 256, 1, 256).is_ok());
    assert_eq!(
        detail(&larql_compute::q5k_direct::matvec_device(175, 256, 1, 256).unwrap_err()),
        "q5k byte length mismatch: got 175, expected 176"
    );
    assert!(larql_compute::q8_0_direct::matvec_device(34, 32, 1, 32).is_ok());
    assert_eq!(
        detail(&larql_compute::q8_0_direct::matvec_device(34, 33, 1, 33).unwrap_err()),
        "invalid q8_0 matvec shape rows=1 hidden=33 x_len=33"
    );
}

#[test]
fn pairs_are_checked_one_after_the_other() {
    let (a, b) = matvec_pair(144, 1, 288, 2, 256, 256).unwrap();
    assert_eq!((a.rows, b.rows), (1, 2));
    assert_eq!(
        detail(&matvec_pair(144, 1, 287, 2, 256, 256).unwrap_err()),
        "q4k byte length mismatch: got 287, expected 288"
    );
}

#[test]
fn traces_are_for_large_matrices() {
    assert!(!is_traced(None, None, 1_000_000));
    assert!(is_traced(Some("1"), None, 100_000) && !is_traced(Some("1"), None, 99_999));
    assert!(is_traced(Some("1"), Some("5"), 5) && !is_traced(Some("1"), Some("5"), 4));
}

#[test]
fn batched_matvec_checks_and_launches() {
    let l = matvec_batched(144, 768, 1, 256, 3).unwrap();
    assert_eq!(l.m_tile, 3);
    assert_eq!(l.cfg.shared_mem_bytes, 16_384);
    assert!(matvec_batched(144, 256 * 9, 1, 256, 9).is_err());
    assert!(matvec_batched(144, 767, 1, 256, 3).is_err());
    assert!(matvec_batched(143, 768, 1, 256, 3).is_err());
}

#[test]
fn packed_input_kernels_check_and_launch() {
    let x = PackedRow { n_blocks: 8, bytes_len: 288 };
    let l = larql_compute::q6k_mmvq::matvec_device_into_with_dev(210, &x, 1, 1, 256).unwrap();
    assert_eq!(l.cfg.block_dim, (32, 4, 1));
    assert_eq!(l.n_super_blocks, 1);
    assert_eq!(
        detail(&larql_compute::q6k_mmvq::matvec_device_into(210, &x, 2, 1, 256).unwrap_err()),
        "q6k_mmvq y length mismatch: y=2 != rows=1"
    );
    let m = larql_compute::q4k_mmvq::matvec_device_into_with_dev(
        Some("0"), Some("2"), 144, &x, 1, 1, 256,
    )
    .unwrap();
    assert!(!m.coop);
    assert_eq!(m.launch.cfg.block_dim, (32, 2, 1));
    let m = larql_compute::q4k_mmvq::matvec_device_into_with_dev(
        Some("1"), None, 144, &x, 1, 1, 256,
    )
    .unwrap();
    assert!(m.coop);
    assert_eq!(m.launch.cfg.grid_dim, (1, 1, 1));
    let short = PackedRow { n_blocks: 7, bytes_len: 252 };
    assert_eq!(
        detail(
            &larql_compute::q4k_mmvq::matvec_device_into_with_dev(
                None, None, 144, &short, 1, 1, 256
            )
            .unwrap_err()
        ),
        "q8_1 input block count mismatch: 7 blocks for hidden=256"
    );
}

#[test]
fn kernel_settings_fall_back() {
    assert_eq!(choose_rows_per_block(None), 4);
    assert_eq!(choose_rows_per_block(Some("8")), 8);
    assert_eq!(choose_rows_per_block(Some("3")), 4);
    assert_eq!(compile_arch(None), "compute_61");
    assert_eq!(compile_arch(Some("nonsense")), "compute_61");
    assert!(q4k_mmvq_use_coop(Some("1"), 1, 256));
    assert!(!q4k_mmvq_use_coop(Some("0"), 1, 256));
}

#[test]
fn powers_of_two_are_exact() {
    for e in -126..=127 {
        assert_eq!(f32::from_bits(pow2_i32(e)), 2.0f32.powi(e));
    }
    assert_eq!(pow2_i32(-127), 0);
    assert_eq!(f32::from_bits(pow2_i32(128)), f32::MAX);
    assert_eq!(pow2_i32(i32::MIN), 0);
    assert_eq!(f32::from_bits(pow2_i32(i32::MAX)), f32::MAX);
}

#[test]
fn softmax_threads_keep_to_their_rows() {
    assert_eq!(row_range(0, 12, 3, 4), Some((0, 4)));
    assert_eq!(row_range(2, 12, 3, 4), Some((8, 12)));
    assert_eq!(row_range(3, 12, 3, 4), None);
    assert_eq!(row_range(2, 11, 3, 4), None);
    assert!(masked(1, 2, 3) && !masked(1, 2, 2) && !masked(0, 2, 3));
}
