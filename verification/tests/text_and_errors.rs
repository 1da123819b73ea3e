use larql_compute::cache::{cache_dir, version_marker};
use larql_compute::error::CudaInitError;
use larql_compute::flags::{
    decode_graph_enabled, decode_profile_enabled, host_fallback_enabled, kv_format_is_iso3,
    number_setting, prefill_tensor_cores_enabled, q4k_mmvq_enabled, q6k_mmvq_enabled,
};
use larql_compute::launch::div_ceil;
use larql_compute::text::{parse_i32, parse_unsigned, parse_usize, push_dec};
use std::path::{Path, PathBuf};

#[test]
fn cache_dir_respects_xdg_cache_home() {
    let dir = cache_dir(Some("/tmp/test-xdg-cache"), Some("/tmp/test-home"));
    assert!(Path::new(&dir).starts_with("/tmp/test-xdg-cache/larql/cudarc"));
}

#[test]
fn cache_dir_falls_back_to_home() {
    let dir = cache_dir(None, Some("/tmp/test-home"));
    assert_eq!(PathBuf::from(dir), PathBuf::from("/tmp/test-home/.cache/larql/cudarc"));
}

#[test]
fn cache_dir_joins_as_paths_do() {
    assert_eq!(cache_dir(None, None), ".cache/larql/cudarc");
    for base in ["/a", "/a/", "", "/", "rel"] {
        let want = PathBuf::from(base).join("larql").join("cudarc");
        assert_eq!(cache_dir(Some(base), None), want.to_str().unwrap());
        let want = PathBuf::from(base).join(".cache").join("larql").join("cudarc");
        assert_eq!(cache_dir(None, Some(base)), want.to_str().unwrap());
    }
}

#[test]
fn version_marker_has_three_lines() {
    assert_eq!(version_marker("0.1.0"), "larql-compute=0.1.0\ncudarc=0.19\nformat=v1\n");
}

#[test]
fn errors_read_as_sentences() {
    let e = CudaInitError::DriverMissing("boom".to_string());
    assert_eq!(e.message(), "CUDA driver not reachable: boom");
    assert_eq!(
        CudaInitError::NoDevices.message(),
        "CUDA driver loaded but reports no devices"
    );
    let e = CudaInitError::ToolkitMismatch { found: "11.0".to_string(), need: "12.8" };
    assert_eq!(e.message(), "CUDA toolkit mismatch: found 11.0, need 12.8+");
    assert_eq!(
        CudaInitError::NotImplemented("x").message(),
        "CUDA backend stub: x is not yet implemented (see openspec/changes/cuda-and-rotorquant-kv/)"
    );
}

#[test]
fn decimal_text_is_that_of_the_standard_library() {
    for n in [0u64, 1, 9, 10, 99, 100, 4096, u64::MAX] {
        let mut s = String::from("n=");
        push_dec(&mut s, n);
        assert_eq!(s, format!("n={n}"));
    }
}

#[test]
fn numbers_are_parsed_as_the_standard_library_does() {
    for t in [
        "0", "7", "+7", "-7", "007", "", "+", "-", " 7", "7 ", "1e3", "0x10", "18446744073709551615",
        "18446744073709551616", "99999999999999999999999", "2147483647", "2147483648",
        "-2147483648", "-2147483649", "++1", "4294967296", "-0", "1_000",
    ] {
        assert_eq!(parse_usize(t), t.parse::<usize>().ok(), "{t:?}");
        assert_eq!(parse_i32(t), t.parse::<i32>().ok(), "{t:?}");
        assert_eq!(parse_unsigned(t, 255), t.parse::<u8>().ok().map(u64::from), "{t:?}");
    }
}

#[test]
fn switches_have_their_defaults() {
    assert!(q4k_mmvq_enabled(None) && q4k_mmvq_enabled(Some("1")) && !q4k_mmvq_enabled(Some("0")));
    assert!(q6k_mmvq_enabled(None) && q6k_mmvq_enabled(Some("00")) && !q6k_mmvq_enabled(Some("0")));
    assert!(decode_graph_enabled(None) && !decode_graph_enabled(Some("0")));
    assert!(!host_fallback_enabled(None) && host_fallback_enabled(Some("1")));
    assert!(!host_fallback_enabled(Some("true")) && !host_fallback_enabled(Some("")));
    assert!(!decode_profile_enabled(None) && decode_profile_enabled(Some("1")));
    assert!(!prefill_tensor_cores_enabled(None) && prefill_tensor_cores_enabled(Some("1")));
    assert!(kv_format_is_iso3(Some("iso3")));
    assert!(!kv_format_is_iso3(Some("iso4")) && !kv_format_is_iso3(Some("iso33")));
    assert!(!kv_format_is_iso3(None) && !kv_format_is_iso3(Some("")));
}

#[test]
fn number_settings_fall_back() {
    assert_eq!(number_setting(None, 5), 5);
    assert_eq!(number_setting(Some("12"), 5), 12);
    assert_eq!(number_setting(Some("x"), 5), 5);
    assert_eq!(number_setting(Some("-1"), 5), 5);
}

#[test]
fn ceiling_division_covers() {
    for (n, d, want) in [(0, 4, 0), (1, 4, 1), (4, 4, 1), (5, 4, 2), (usize::MAX, 1, usize::MAX)] {
        assert_eq!(div_ceil(n, d), want);
    }
}
