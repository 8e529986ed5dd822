use aireader_llm::acquire::{
    archive_urls, check_model_deletable, check_model_signature, cudart_archive_name,
    default_runtime_base_urls, default_runtime_zip_name, listed_model_id, model_download_urls,
    model_not_found, model_step, next_runtime_stage, numbered_file_name, runtime_missing_message,
    ModelStep, RuntimeStage,
};
use aireader_llm::archive::{
    archive_kind, is_bench_file_name, is_server_file_name, safe_entry_name, server_candidates,
    should_mark_executable, ArchiveKind,
};
use aireader_llm::acquire::{model_info, sort_models};
use aireader_llm::config::Platform;
use aireader_llm::orchestrator::{bench_args, runtime_status, BenchmarkOptions};
use aireader_llm::probe::{chipset_from_profiler, gpu_names_from_listing, pid_from_netstat, real_gpu_names, vram_from_sysfs};
use aireader_llm::download::{BodyEnd, ChunkStep, DownloadSession, MirrorStep};
use aireader_llm::mirror::{mirrors_to_try, ordered_mirrors, probe_targets, sort_by_latency};
use aireader_llm::orchestrator::{server_request, AutoStart, BuiltinAutoStartOptions, BuiltinLlmOptions};
use aireader_llm::probe::{
    adapter_ram_bytes, glibc_too_old, pid_from_listing, unified_memory_vram, vram_bytes_from_smi,
};
use aireader_llm::supervisor::{
    base_url, launch_args, ServerConfig, StartDecision, StopPlan, Supervisor,
};
use aireader_llm::tier::{
    cap_tier_by_vram, clamp_gpu_layers_by_vram, cpu_performance_tier, is_gpu_worth_using,
    parse_preferred_tier, recommend, tier_from_benchmark, tier_from_resources, tier_to_model_id,
    BuiltinProbeResult, BuiltinRecommendOptions, GIB,
};

fn probe(ram_gib: u64, vram_gib: Option<u64>, cores: usize, cuda: bool, vulkan: bool, metal: bool) -> BuiltinProbeResult {
    BuiltinProbeResult {
        cpu_cores: cores,
        cpu_brand: "Test CPU".to_string(),
        total_memory_bytes: ram_gib * GIB,
        vram_bytes: vram_gib.map(|g| g * GIB),
        gpu_name: if vram_gib.is_some() { Some("NVIDIA GeForce RTX 3070".to_string()) } else { None },
        has_cuda: cuda,
        has_vulkan: vulkan,
        has_metal: metal,
        is_apple_silicon: false,
    }
}

fn config(model: &str, mode: &str, backend: &str, layers: i32, cuda: &str) -> ServerConfig {
    ServerConfig {
        model_id: model.to_string(),
        compute_mode: mode.to_string(),
        gpu_backend: backend.to_string(),
        gpu_layers: layers,
        cuda_version: cuda.to_string(),
    }
}

#[test]
fn low_ram_gives_tier_zero_in_every_mode() {
    for ram in 0..8u64 {
        for mode in ["cpu", "gpu", "hybrid"] {
            assert_eq!(tier_from_resources(ram, Some(48 * GIB), mode, 64), 0);
        }
    }
    let r = recommend(probe(6, Some(24), 32, true, true, false), None, Platform::Linux);
    assert_eq!(r.recommended_tier, 0);
    assert_eq!(r.recommended_model_id, "qwen3_0_6b_q4_k_m");
}

#[test]
fn cpu_only_machine_gets_tier_one() {
    let r = recommend(probe(32, None, 16, false, false, false), None, Platform::Linux);
    assert_eq!(r.recommended_compute_mode, "cpu");
    assert_eq!(r.recommended_gpu_backend, "none");
    assert_eq!(r.recommended_tier, 1);
    assert_eq!(r.recommended_model_id, "qwen3_1_7b_q4_k_m");
    assert_eq!(r.recommended_cuda_version, "12.4");
}

#[test]
fn eight_gib_vram_gets_tier_two_in_gpu_mode() {
    let r = recommend(probe(40, Some(8), 16, true, true, false), None, Platform::Windows);
    assert_eq!(r.recommended_compute_mode, "gpu");
    assert_eq!(r.recommended_gpu_backend, "cuda");
    assert_eq!(r.recommended_tier, 2);
    assert_eq!(r.recommended_model_id, "qwen3_4b_q4_k_m");
}

#[test]
fn recommendation_follows_preferences() {
    let opts = BuiltinRecommendOptions {
        preferred_tier: Some(" 4 ".to_string()),
        preferred_compute: Some("hybrid".to_string()),
        cuda_version: Some("13.1".to_string()),
    };
    let r = recommend(probe(64, Some(8), 16, true, true, false), Some(opts), Platform::Linux);
    assert_eq!(r.recommended_compute_mode, "hybrid");
    assert_eq!(r.recommended_gpu_backend, "cuda");
    // The VRAM ladder still caps a preferred tier.
    assert_eq!(r.recommended_tier, 2);
    assert_eq!(r.recommended_cuda_version, "13.1");
}

#[test]
fn vulkan_only_gpu_is_hybrid() {
    let r = recommend(probe(16, Some(12), 8, false, true, false), None, Platform::Linux);
    assert_eq!(r.recommended_compute_mode, "hybrid");
    assert_eq!(r.recommended_gpu_backend, "vulkan");
    // Hybrid mode: RAM (tier 2) and VRAM (tier 4) decide; the CPU ladder does not apply.
    assert_eq!(r.recommended_tier, 2);
}

#[test]
fn ladders_have_exact_steps() {
    assert_eq!(cpu_performance_tier(7), 0);
    assert_eq!(cpu_performance_tier(8), 1);
    assert_eq!(cpu_performance_tier(20), 2);
    assert_eq!(cpu_performance_tier(24), 3);
    assert_eq!(tier_from_resources(48, None, "cpu", 32), 3);
    assert_eq!(tier_from_resources(48, Some(24 * GIB), "gpu", 4), 5);
    assert_eq!(tier_from_resources(20, Some(24 * GIB), "gpu", 4), 3);
    assert_eq!(cap_tier_by_vram(5, Some(5 * GIB)), 1);
    assert_eq!(cap_tier_by_vram(5, None), 5);
    assert_eq!(cap_tier_by_vram(3, Some(0)), 3);
    assert_eq!(clamp_gpu_layers_by_vram(-5, None), 0);
    assert_eq!(clamp_gpu_layers_by_vram(20, Some(3 * GIB)), 0);
    assert_eq!(clamp_gpu_layers_by_vram(20, Some(5 * GIB)), 8);
    assert_eq!(clamp_gpu_layers_by_vram(20, Some(7 * GIB)), 16);
    assert_eq!(clamp_gpu_layers_by_vram(20, Some(8 * GIB)), 20);
    assert_eq!(tier_to_model_id(5, 64), "qwen3_32b_q4_k_m");
    assert_eq!(tier_to_model_id(9, 64), "qwen3_0_6b_q4_k_m");
}

#[test]
fn preferred_tier_parsing() {
    assert_eq!(parse_preferred_tier(None), None);
    assert_eq!(parse_preferred_tier(Some("auto")), None);
    assert_eq!(parse_preferred_tier(Some("  ")), None);
    assert_eq!(parse_preferred_tier(Some("3")), Some(3));
    assert_eq!(parse_preferred_tier(Some("6")), None);
}

#[test]
fn gpu_usefulness() {
    let none: Option<String> = None;
    assert!(is_gpu_worth_using(&none, None, true));
    assert!(!is_gpu_worth_using(&none, Some(GIB), false));
    assert!(is_gpu_worth_using(&none, Some(4 * GIB), false));
    assert!(!is_gpu_worth_using(&Some("Intel(R) UHD Graphics 630".to_string()), Some(4 * GIB), false));
    assert!(!is_gpu_worth_using(&Some("Microsoft Remote Display Adapter".to_string()), Some(4 * GIB), false));
    assert!(is_gpu_worth_using(&Some("NVIDIA GeForce RTX 4090".to_string()), Some(24 * GIB), false));
}

#[test]
fn benchmark_tier_is_capped_by_capacity() {
    let (t, id) = tier_from_benchmark(500, 64, "cpu", None);
    assert_eq!((t, id.as_str()), (5, "qwen3_32b_q4_k_m"));
    let (t, _) = tier_from_benchmark(500, 16, "cpu", None);
    assert_eq!(t, 2);
    let (t, _) = tier_from_benchmark(120, 64, "gpu", Some(5 * GIB));
    assert_eq!(t, 1);
    let (t, _) = tier_from_benchmark(19, 64, "cpu", None);
    assert_eq!(t, 0);
}

#[test]
fn mirrors_keep_order_when_no_probe_answers() {
    let urls = vec!["https://a/x".to_string(), "https://b/x".to_string(), "https://b/x".to_string()];
    let r = mirrors_to_try(&urls, &vec![]);
    assert_eq!(r, urls);
}

#[test]
fn mirrors_fastest_first_then_silent() {
    let urls = vec!["https://a/x".to_string(), "https://b/x".to_string(), "https://c/x".to_string()];
    let r = mirrors_to_try(&urls, &vec![(2, 30), (1, 10)]);
    assert_eq!(r, vec!["https://b/x".to_string(), "https://c/x".to_string(), "https://a/x".to_string()]);
    let sorted = sort_by_latency(&vec![(0, 50), (1, 10), (2, 50), (3, 5)]);
    assert_eq!(sorted.iter().map(|a| a.1).collect::<Vec<_>>(), vec![5, 10, 50, 50]);
    assert_eq!(ordered_mirrors(&urls, &vec![1]), vec!["https://b/x".to_string(), "https://a/x".to_string(), "https://c/x".to_string()]);
}

#[test]
fn answering_mirror_is_not_appended_again() {
    let urls = vec!["https://a/x".to_string(), "https://a/x".to_string()];
    assert_eq!(mirrors_to_try(&urls, &vec![(0, 12)]), vec!["https://a/x".to_string()]);
    let urls = vec!["https://a/x".to_string(), "https://b/x".to_string(), "https://b/x".to_string(), "".to_string()];
    assert_eq!(mirrors_to_try(&urls, &vec![(0, 12)]), vec!["https://a/x".to_string(), "https://b/x".to_string()]);
}

#[test]
fn hybrid_mode_uses_the_vram_ladder() {
    assert_eq!(tier_from_resources(64, Some(24 * GIB), "hybrid", 4), 5);
    assert_eq!(tier_from_resources(64, Some(5 * GIB), "hybrid", 32), 1);
    assert_eq!(tier_from_resources(64, Some(24 * GIB), "cpu", 4), 0);
}

#[test]
fn probe_targets_skip_empty_and_duplicates() {
    let urls = vec!["u".to_string(), "".to_string(), "u".to_string(), "v".to_string()];
    assert_eq!(probe_targets(&urls), vec![0, 3]);
}

#[test]
fn cancel_mid_stream_leaves_nothing() {
    let mut s = DownloadSession::new(vec!["https://a/m.gguf".to_string()], "model");
    match s.next_mirror(false) {
        MirrorStep::Try(u) => assert_eq!(u, "https://a/m.gguf"),
        _ => panic!("expected an attempt"),
    }
    let p = s.start_body(Some(100), 0);
    assert_eq!((p.written, p.total), (0, Some(100)));
    assert!(s.part_on_disk);
    assert!(matches!(s.on_chunk(10, 50, false), ChunkStep::Continue(None)));
    assert!(matches!(s.on_chunk(10, 60, true), ChunkStep::Cancelled));
    assert!(!s.part_on_disk);
    assert!(!s.committed);
    assert!(s.finished);
}

#[test]
fn download_progress_and_speed() {
    let mut s = DownloadSession::new(vec!["https://a/m".to_string()], "m");
    let _ = s.next_mirror(false);
    let _ = s.start_body(None, 1000);
    assert!(matches!(s.on_chunk(500, 1100, false), ChunkStep::Continue(None)));
    match s.on_chunk(1500, 2000, false) {
        ChunkStep::Continue(Some(p)) => {
            assert_eq!(p.written, 2000);
            assert_eq!(p.speed, Some(2000));
            assert_eq!(p.label, "m");
        }
        _ => panic!("expected a progress event"),
    }
    match s.finish_body("https://a/m") {
        BodyEnd::Complete(p) => assert_eq!(p.written, 2000),
        _ => panic!("expected completion"),
    }
    assert!(s.committed && !s.part_on_disk);
}

#[test]
fn truncated_body_falls_through_and_errors_join() {
    let mut s = DownloadSession::new(vec!["u1".to_string(), "u2".to_string()], "m");
    let _ = s.next_mirror(false);
    let _ = s.start_body(Some(10), 0);
    let _ = s.on_chunk(4, 10, false);
    assert!(matches!(s.finish_body("u1"), BodyEnd::Incomplete(_)));
    assert!(!s.part_on_disk);
    assert_eq!(s.errors, vec!["u1 -> incomplete download (4/10)".to_string()]);
    let _ = s.next_mirror(false);
    s.record_failure("u2", "HTTP 404 Not Found");
    match s.next_mirror(false) {
        MirrorStep::Exhausted(m) => assert_eq!(
            m,
            "download failed: u1 -> incomplete download (4/10); u2 -> HTTP 404 Not Found"
        ),
        _ => panic!("expected exhaustion"),
    }
    let mut e = DownloadSession::new(vec![], "m");
    match e.next_mirror(false) {
        MirrorStep::Exhausted(m) => assert_eq!(m, "download failed"),
        _ => panic!("expected exhaustion"),
    }
}

#[test]
fn identical_start_reuses_and_model_change_restarts() {
    let mut sup = Supervisor::new();
    let cfg = config("qwen3_4b_q4_k_m", "gpu", "cuda", 999, "12.4");
    assert!(matches!(sup.ensure_running(&cfg, false), StartDecision::Start(StopPlan::Nothing)));
    sup.started(41234, "/models/Qwen3-4B-Q4_K_M.gguf".to_string(), config("qwen3_4b_q4_k_m", "gpu", "cuda", 999, "12.4"));
    assert!(matches!(sup.ensure_running(&cfg, true), StartDecision::Reuse(41234)));
    assert_eq!(sup.current_port(), Some(41234));
    let other = config("qwen3_8b_q4_k_m", "gpu", "cuda", 999, "12.4");
    assert!(matches!(sup.ensure_running(&other, true), StartDecision::Start(StopPlan::KillHandle)));
    assert_eq!(sup.current_port(), None);
}

#[test]
fn stop_falls_back_to_port_and_is_noop_when_stopped() {
    let mut sup = Supervisor::new();
    assert!(matches!(sup.stop(), StopPlan::Nothing));
    sup.started(5000, "/m/a.gguf".to_string(), config("a", "cpu", "vulkan", 0, "12.4"));
    sup.handle_lost();
    assert!(matches!(sup.stop(), StopPlan::KillByPort(5000)));
    assert!(matches!(sup.stop(), StopPlan::Nothing));
}

#[test]
fn hybrid_layers_and_cuda_version_matter() {
    let mut sup = Supervisor::new();
    sup.started(7000, "/m/x.gguf".to_string(), config("x", "hybrid", "cuda", 8, "12.4"));
    assert!(matches!(sup.ensure_running(&config("x", "hybrid", "cuda", 8, "12.4"), true), StartDecision::Reuse(7000)));
    assert!(matches!(sup.ensure_running(&config("x", "hybrid", "cuda", 16, "12.4"), true), StartDecision::Start(StopPlan::KillHandle)));
    sup.started(7001, "/m/x.gguf".to_string(), config("x", "hybrid", "cuda", 8, "12.4"));
    assert!(matches!(sup.ensure_running(&config("x", "hybrid", "cuda", 8, "13.1"), true), StartDecision::Start(StopPlan::KillHandle)));
}

#[test]
fn status_reports_running_model_and_url() {
    let mut sup = Supervisor::new();
    sup.started(8123, "/models/Qwen3-8B-Q4_K_M.gguf".to_string(), config("qwen3_8b_q4_k_m", "cpu", "vulkan", 0, "12.4"));
    let st = sup.status(true, "/models", "qwen3_8b_q4_k_m", true, true);
    assert!(st.running);
    assert_eq!(st.running_model_id.as_deref(), Some("qwen3_8b_q4_k_m"));
    assert!(st.running_this_model);
    assert_eq!(st.base_url.as_deref(), Some("http://127.0.0.1:8123"));
    let st = sup.status(false, "/models", "qwen3_8b_q4_k_m", true, false);
    assert!(!st.running && st.base_url.is_none() && st.running_model_id.is_none());
    assert_eq!(base_url(1), "http://127.0.0.1:1");
}

#[test]
fn launch_arguments_by_mode() {
    let a = launch_args("/m/a.gguf", 5001, "gpu", 20);
    assert_eq!(a, vec!["-m", "/m/a.gguf", "--host", "127.0.0.1", "--port", "5001", "--ctx-size", "4096", "--jinja", "--n-gpu-layers", "999"]);
    assert_eq!(launch_args("/m/a.gguf", 5001, "hybrid", 16)[10], "16");
    assert_eq!(launch_args("/m/a.gguf", 5001, "cpu", 16)[10], "0");
}

#[test]
fn request_normalisation() {
    let (cfg, allow) = server_request(&None, Platform::Linux);
    assert_eq!(cfg.model_id, "qwen3_0_6b_q4_k_m");
    assert_eq!((cfg.compute_mode.as_str(), cfg.gpu_backend.as_str(), cfg.cuda_version.as_str()), ("cpu", "vulkan", "12.4"));
    assert_eq!(cfg.gpu_layers, 20);
    assert!(allow);
    let opts = Some(BuiltinLlmOptions {
        model_id: Some(" my model ".to_string()),
        mode: Some("bundled_only".to_string()),
        compute_mode: Some("hybrid".to_string()),
        gpu_backend: Some("CUDA".to_string()),
        gpu_layers: Some(-3),
        cuda_version: Some("13.1".to_string()),
        model_url: None,
        runtime_url: None,
        cudart_url: None,
    });
    let (cfg, allow) = server_request(&opts, Platform::MacosArm);
    assert_eq!(cfg.model_id, "my_model");
    assert_eq!((cfg.compute_mode.as_str(), cfg.gpu_backend.as_str(), cfg.cuda_version.as_str()), ("hybrid", "cuda", "13.1"));
    assert_eq!(cfg.gpu_layers, 0);
    assert!(!allow);
}

#[test]
fn auto_start_walks_candidates_and_tiers() {
    let p = probe(16, Some(8), 8, true, true, false);
    let opts = Some(BuiltinAutoStartOptions {
        allow_download: Some(false),
        preferred_tier: None,
        preferred_compute: None,
        gpu_layers: None,
        cuda_version: None,
    });
    let mut a = AutoStart::new(&p, &opts, Platform::Windows);
    let mut seen = vec![];
    while let Some(o) = a.attempt() {
        seen.push((o.compute_mode.unwrap(), o.gpu_backend.unwrap(), o.model_id.unwrap(), o.gpu_layers.unwrap()));
        assert_eq!(o.mode.as_deref(), Some("bundled_only"));
        a.failed();
    }
    let expect: Vec<(String, String, String, i32)> = vec![
        ("gpu", "cuda", "qwen3_4b_q4_k_m", 20),
        ("gpu", "cuda", "qwen3_1_7b_q4_k_m", 20),
        ("gpu", "cuda", "qwen3_0_6b_q4_k_m", 20),
        ("hybrid", "vulkan", "qwen3_4b_q4_k_m", 20),
        ("hybrid", "vulkan", "qwen3_1_7b_q4_k_m", 20),
        ("hybrid", "vulkan", "qwen3_0_6b_q4_k_m", 20),
        ("cpu", "none", "qwen3_1_7b_q4_k_m", 0),
        ("cpu", "none", "qwen3_0_6b_q4_k_m", 0),
    ]
    .into_iter()
    .map(|(a, b, c, d)| (a.to_string(), b.to_string(), c.to_string(), d))
    .collect();
    assert_eq!(seen, expect);
}

#[test]
fn auto_start_pinned_mode_has_one_candidate() {
    let p = probe(64, Some(24), 32, false, false, false);
    let opts = Some(BuiltinAutoStartOptions {
        allow_download: None,
        preferred_tier: Some("1".to_string()),
        preferred_compute: Some("gpu".to_string()),
        gpu_layers: Some(10),
        cuda_version: Some("13.1".to_string()),
    });
    let mut a = AutoStart::new(&p, &opts, Platform::Linux);
    let o = a.attempt().unwrap();
    assert_eq!(o.gpu_backend.as_deref(), Some("vulkan"));
    assert_eq!(o.model_id.as_deref(), Some("qwen3_1_7b_q4_k_m"));
    assert_eq!(o.cuda_version.as_deref(), Some("13.1"));
    assert_eq!(o.mode.as_deref(), Some("auto"));
    a.failed();
    a.failed();
    assert!(a.attempt().is_none());
}

#[test]
fn runtime_archives_and_urls() {
    assert_eq!(default_runtime_zip_name(Platform::Windows, "gpu", "CUDA", "13.1"), "llama-b7966-bin-win-cuda-13.1-x64.zip");
    assert_eq!(default_runtime_zip_name(Platform::Windows, "cpu", "cuda", "13.1"), "llama-b7966-bin-win-cpu-x64.zip");
    assert_eq!(default_runtime_zip_name(Platform::Linux, "gpu", "cuda", "12.4"), "llama-b7966-bin-ubuntu-vulkan-x64.tar.gz");
    assert_eq!(default_runtime_zip_name(Platform::MacosArm, "cpu", "metal", "12.4"), "llama-b7966-bin-macos-arm64.tar.gz");
    assert_eq!(cudart_archive_name(Platform::Windows, "hybrid", "cuda", "12.4"), Some("cudart-llama-bin-win-cuda-12.4-x64.zip"));
    assert_eq!(cudart_archive_name(Platform::Linux, "hybrid", "cuda", "12.4"), None);
    let bases = default_runtime_base_urls();
    let urls = archive_urls(&bases, "f.zip", None);
    assert_eq!(urls.len(), 2);
    assert_eq!(urls[1], "https://github.com/ggml-org/llama.cpp/releases/download/b7966/f.zip");
    assert_eq!(archive_urls(&bases, "f.zip", Some("https://mine/f.zip")), vec!["https://mine/f.zip".to_string()]);
    assert_eq!(archive_urls(&bases, "f.zip", Some("")).len(), 2);
}

#[test]
fn model_urls_and_steps() {
    assert_eq!(model_download_urls("custom", None), Err("builtin model URL not configured".to_string()));
    assert_eq!(model_download_urls("custom", Some("https://x/m.gguf")), Ok(vec!["https://x/m.gguf".to_string()]));
    assert_eq!(model_download_urls("qwen3_8b_q4_k_m", Some("")).unwrap().len(), 3);
    assert!(matches!(model_step(true, false, false, false), ModelStep::UseExisting));
    assert!(matches!(model_step(false, false, true, true), ModelStep::Fail(_)));
    assert!(matches!(model_step(false, true, true, false), ModelStep::CopyBundled));
    assert!(matches!(model_step(false, true, false, true), ModelStep::Download));
    match model_step(false, true, false, false) {
        ModelStep::Fail(m) => assert!(m.starts_with("builtin model not found")),
        _ => panic!("expected failure"),
    }
    assert_eq!(next_runtime_stage(RuntimeStage::Installed, false), Some(RuntimeStage::BundledDirectory));
    assert_eq!(next_runtime_stage(RuntimeStage::BundledArchive, false), Some(RuntimeStage::Download));
    assert_eq!(next_runtime_stage(RuntimeStage::BundledArchive, true), None);
    assert_eq!(
        runtime_missing_message(false, "cpu", "vulkan", "/llm/runtime/cpu", "12.4"),
        "builtin LLM runtime not found. Please place llama-server under: /llm/runtime/cpu (computeMode=cpu, gpuBackend=vulkan, cudaVersion=12.4)"
    );
    assert!(runtime_missing_message(true, "gpu", "cuda", "/x", "12.4").starts_with("Bundled LLM runtime not found for gpu / cuda."));
}

#[test]
fn signature_delete_and_import_rules() {
    assert_eq!(check_model_signature(b"GGUF\x03\x00", false), Ok(()));
    assert_eq!(check_model_signature(b"GGU", false), Err("downloaded model is not a GGUF file (signature mismatch)".to_string()));
    assert_eq!(check_model_signature(b"PK\x03\x04", true), Err("imported model is not a GGUF file (signature mismatch)".to_string()));
    assert!(check_model_deletable(Some("a"), "a").is_err());
    assert!(check_model_deletable(Some("a"), "b").is_ok());
    assert!(check_model_deletable(None, "a").is_ok());
    assert_eq!(model_not_found("x"), "Model file not found for 'x'");
    assert_eq!(numbered_file_name("my_model", 12), "my_model-12.gguf");
    assert_eq!(listed_model_id("Qwen3-14B-Q4_K_M.gguf"), "qwen3_14b_q4_k_m");
    assert_eq!(listed_model_id("weird name.gguf"), "weird_name");
}

#[test]
fn archive_rules() {
    assert_eq!(archive_kind("rt.TAR.GZ"), ArchiveKind::TarGz);
    assert_eq!(archive_kind("rt.tgz"), ArchiveKind::TarGz);
    assert_eq!(archive_kind("rt.zip"), ArchiveKind::Zip);
    assert_eq!(safe_entry_name("bin\\llama-server.exe"), Some("bin/llama-server.exe".to_string()));
    assert_eq!(safe_entry_name("/etc/passwd"), None);
    assert_eq!(safe_entry_name("..\\evil"), None);
    assert_eq!(safe_entry_name("a/b..c"), None);
    assert!(should_mark_executable("llama-server"));
    assert!(should_mark_executable("LLAMA-QUANTIZE"));
    assert!(should_mark_executable("rpc-server"));
    assert!(!should_mark_executable("libggml.so"));
    assert!(is_server_file_name("Llama-Server.EXE"));
    assert!(!is_server_file_name("llama-cli"));
    assert!(is_bench_file_name("llama-bench"));
    assert_eq!(server_candidates("/rt")[3], "/rt/server");
}

#[test]
fn tool_output_readers() {
    assert_eq!(vram_bytes_from_smi("8192\n12288\r\n"), Some(12288 * 1024 * 1024));
    assert_eq!(vram_bytes_from_smi("N/A\n"), None);
    assert_eq!(adapter_ram_bytes("AdapterRAM  \r\n4293918720  \r\n1073741824\r\n\r\n"), Some(4293918720));
    assert_eq!(adapter_ram_bytes("AdapterRAM\n"), None);
    assert_eq!(pid_from_listing("  4242\n4343\n"), Some(4242));
    assert_eq!(pid_from_listing(""), None);
    assert_eq!(unified_memory_vram(16 * GIB), Some(12 * GIB));
    assert_eq!(unified_memory_vram(0), None);
    let focal = "ldd (Ubuntu GLIBC 2.31-0ubuntu9.9) 2.31\nCopyright (C) 2020 Free Software Foundation, Inc.\nThis is free software; see the source for copying conditions.  There is NO\nwarranty; not even for MERCHANTABILITY or FITNESS FOR A PARTICULAR PURPOSE.\nWritten by Roland McGrath and Ulrich Drepper.\n";
    assert!(glibc_too_old(focal));
    let jammy = "ldd (Ubuntu GLIBC 2.35-0ubuntu3.8) 2.35\nCopyright (C) 2022 Free Software Foundation, Inc.\nThis is free software; see the source for copying conditions.  There is NO\nwarranty; not even for MERCHANTABILITY or FITNESS FOR A PARTICULAR PURPOSE.\nWritten by Roland McGrath and Ulrich Drepper.\n";
    assert!(!glibc_too_old(jammy));
    assert!(!glibc_too_old("musl libc"));
    assert!(!glibc_too_old(""));
}

#[test]
fn more_tool_output_readers() {
    let table = "Active Connections\r\n\r\n  Proto  Local Address  Foreign Address  State  PID\r\n  TCP    0.0.0.0:135    0.0.0.0:0        LISTENING  1044\r\n  TCP    127.0.0.1:5123 0.0.0.0:0        LISTENING  7788\r\n";
    assert_eq!(pid_from_netstat(table, 5123), Some(7788));
    assert_eq!(pid_from_netstat(table, 123), None);
    let pci = "00:02.0 VGA compatible controller: Intel Corporation UHD Graphics 630\n01:00.0 3D controller: NVIDIA Corporation GA104 [GeForce RTX 3070]\n00:1f.3 Audio device: Intel Corporation Cannon Lake PCH cAVS\n";
    assert_eq!(
        gpu_names_from_listing(pci),
        Some("Intel Corporation UHD Graphics 630, NVIDIA Corporation GA104 [GeForce RTX 3070]".to_string())
    );
    assert_eq!(gpu_names_from_listing("00:1f.3 Audio device: x\n"), None);
    assert_eq!(real_gpu_names("NVIDIA GeForce RTX 4060, Parsec Virtual Display Adapter"), "NVIDIA GeForce RTX 4060");
    assert_eq!(real_gpu_names("Microsoft Remote Display Adapter"), "Microsoft Remote Display Adapter");
    assert_eq!(vram_from_sysfs("8573157376\n"), Some(8573157376));
    assert_eq!(vram_from_sysfs("0\n"), None);
    let report = "Graphics/Displays:\n\n    Apple M2 Pro:\n\n      Chipset Model: Apple M2 Pro\n      Type: GPU\n";
    assert_eq!(chipset_from_profiler(report), Some("Apple M2 Pro".to_string()));
    assert_eq!(chipset_from_profiler("Chipset Model:   \n"), None);
}

#[test]
fn runtime_status_and_benchmark_arguments() {
    let opts = Some(BuiltinLlmOptions {
        model_id: None,
        mode: None,
        compute_mode: Some("gpu".to_string()),
        gpu_backend: Some("cuda".to_string()),
        gpu_layers: None,
        cuda_version: Some("13.1".to_string()),
        model_url: None,
        runtime_url: None,
        cudart_url: None,
    });
    let st = runtime_status("/llm", &opts, Platform::Windows, true);
    assert!(st.installed);
    assert_eq!(st.runtime_dir_path, "/llm/runtime/cuda-13.1");
    assert_eq!((st.compute_mode.as_str(), st.gpu_backend.as_str(), st.cuda_version.as_str()), ("gpu", "cuda", "13.1"));
    let st = runtime_status("/llm", &None, Platform::Linux, false);
    assert_eq!(st.runtime_dir_path, "/llm/runtime/cpu");
    let b = bench_args("/m/q.gguf", &Some(BenchmarkOptions { compute_mode: Some("hybrid".to_string()), gpu_backend: None, cuda_version: None, gpu_layers: None }), Some(5 * GIB));
    assert_eq!(b, vec!["-m", "/m/q.gguf", "-p", "0", "-n", "64", "-r", "1", "-ngl", "8", "-o", "json"]);
    assert_eq!(bench_args("/m/q.gguf", &None, None)[9], "0");
}

#[test]
fn model_listing_is_sorted_by_identity() {
    let items = vec![
        model_info("zeta.gguf", 3),
        model_info("Qwen3-0.6B-Q4_K_M.gguf", 1),
        model_info("alpha model.gguf", 2),
    ];
    let sorted = sort_models(items);
    let ids: Vec<&str> = sorted.iter().map(|m| m.model_id.as_str()).collect();
    assert_eq!(ids, vec!["alpha_model", "qwen3_0_6b_q4_k_m", "zeta"]);
    assert_eq!(sorted[1].file_name, "Qwen3-0.6B-Q4_K_M.gguf");
    assert_eq!(sorted[1].size, 1);
}
