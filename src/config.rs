//! Compute configuration: normalisation of the loosely typed settings, the
//! runtime installation directory of each variant, and the runtime archives.

use vstd::prelude::*;
use crate::text::{
    chars_of, eq_ignore_ascii_case, path_join, push_separator, push_str,
    str_eq, str_eq_ignore_ascii_case, string_of,
};

verus! {

/// The operating system and architecture the library runs for.
#[derive(Clone, Copy, Debug, PartialEq, Eq, Structural)]
pub enum Platform {
    Windows,
    MacosArm,
    MacosX64,
    Linux,
}

/// The view of an optional string slice.
pub open spec fn opt_str_view(raw: Option<&str>) -> Option<Seq<char>> {
    match raw {
        Some(s) => Some(s@),
        None => None,
    }
}

/// An optional string that is present and equal to `lit`.
pub open spec fn opt_is(raw: Option<Seq<char>>, lit: Seq<char>) -> bool {
    raw == Some(lit)
}

/// Whether an optional string is present and equal to `lit`.
fn opt_eq(raw: Option<&str>, lit: &str) -> (r: bool)
    ensures
        r == opt_is(opt_str_view(raw), lit@),
{
    match raw {
        Some(s) => str_eq(s, lit),
        None => false,
    }
}

/// The CUDA version a setting names: only 13.1 is recognised, all else is 12.4.
pub open spec fn cuda_version_of(raw: Option<Seq<char>>) -> Seq<char> {
    if opt_is(raw, "13.1"@) {
        "13.1"@
    } else {
        "12.4"@
    }
}

/// The compute mode a setting names; anything unknown is `cpu`.
pub open spec fn compute_mode_of(raw: Option<Seq<char>>) -> Seq<char> {
    if opt_is(raw, "gpu"@) {
        "gpu"@
    } else if opt_is(raw, "hybrid"@) {
        "hybrid"@
    } else {
        "cpu"@
    }
}

/// The backend used when none or an unknown one is named: Metal on macOS,
/// Vulkan elsewhere.
pub open spec fn default_backend(p: Platform) -> Seq<char> {
    match p {
        Platform::MacosArm | Platform::MacosX64 => "metal"@,
        _ => "vulkan"@,
    }
}

/// The GPU backend a setting names.
pub open spec fn gpu_backend_of(raw: Option<Seq<char>>, p: Platform) -> Seq<char> {
    if opt_is(raw, "cuda"@) || opt_is(raw, "CUDA"@) {
        "cuda"@
    } else if opt_is(raw, "metal"@) || opt_is(raw, "Metal"@) {
        "metal"@
    } else {
        default_backend(p)
    }
}

/// Normalises a CUDA version setting.
pub fn normalize_cuda_version(raw: Option<&str>) -> (r: &'static str)
    ensures
        r@ == cuda_version_of(opt_str_view(raw)),
{
    if opt_eq(raw, "13.1") {
        "13.1"
    } else {
        "12.4"
    }
}

/// Normalises a compute mode setting.
pub fn normalize_compute_mode(raw: Option<&str>) -> (r: &'static str)
    ensures
        r@ == compute_mode_of(opt_str_view(raw)),
{
    if opt_eq(raw, "gpu") {
        "gpu"
    } else if opt_eq(raw, "hybrid") {
        "hybrid"
    } else {
        "cpu"
    }
}

/// The default backend of a platform.
pub fn default_gpu_backend(platform: Platform) -> (r: &'static str)
    ensures
        r@ == default_backend(platform),
{
    match platform {
        Platform::MacosArm | Platform::MacosX64 => "metal",
        _ => "vulkan",
    }
}

/// Normalises a GPU backend setting.
pub fn normalize_gpu_backend(raw: Option<&str>, platform: Platform) -> (r: &'static str)
    ensures
        r@ == gpu_backend_of(opt_str_view(raw), platform),
{
    if opt_eq(raw, "cuda") || opt_eq(raw, "CUDA") {
        "cuda"
    } else if opt_eq(raw, "metal") || opt_eq(raw, "Metal") {
        "metal"
    } else {
        default_gpu_backend(platform)
    }
}

/// A compute mode that offloads work to a GPU.
pub open spec fn is_gpu_mode(mode: Seq<char>) -> bool {
    mode == "gpu"@ || mode == "hybrid"@
}

/// Whether a compute mode offloads work to a GPU.
pub fn uses_gpu(compute_mode: &str) -> (r: bool)
    ensures
        r == is_gpu_mode(compute_mode@),
{
    str_eq(compute_mode, "gpu") || str_eq(compute_mode, "hybrid")
}

/// The name of the runtime variant directory for a configuration.
pub open spec fn runtime_variant(mode: Seq<char>, backend: Seq<char>, cuda: Seq<char>) -> Seq<char> {
    if is_gpu_mode(mode) {
        if eq_ignore_ascii_case(backend, "cuda"@) {
            "cuda-"@ + cuda
        } else if eq_ignore_ascii_case(backend, "metal"@) {
            "metal"@
        } else {
            "vulkan"@
        }
    } else {
        "cpu"@
    }
}

/// The runtime installation directory under the LLM root `llm`.
pub open spec fn runtime_dir_of(llm: Seq<char>, mode: Seq<char>, backend: Seq<char>, cuda: Seq<
    char,
>) -> Seq<char> {
    path_join(path_join(llm, "runtime"@), runtime_variant(mode, backend, cuda))
}

/// The runtime installation directory: `<llm_dir>/runtime/<variant>`, where the
/// variant is `cpu`, `vulkan`, `metal` or `cuda-<version>`.
pub fn runtime_dir(llm_dir: &str, compute_mode: &str, gpu_backend: &str, cuda_version: &str) -> (r:
    String)
    ensures
        r@ == runtime_dir_of(llm_dir@, compute_mode@, gpu_backend@, cuda_version@),
{
    let mut v = chars_of(llm_dir);
    push_separator(&mut v);
    push_str(&mut v, "runtime");
    push_separator(&mut v);
    let ghost base = v@;
    if uses_gpu(compute_mode) {
        if str_eq_ignore_ascii_case(gpu_backend, "cuda") {
            push_str(&mut v, "cuda-");
            push_str(&mut v, cuda_version);
            assert(v@ =~= base + ("cuda-"@ + cuda_version@));
        } else if str_eq_ignore_ascii_case(gpu_backend, "metal") {
            push_str(&mut v, "metal");
        } else {
            push_str(&mut v, "vulkan");
        }
    } else {
        push_str(&mut v, "cpu");
    }
    proof {
        reveal_strlit("runtime");
        let r1 = path_join(llm_dir@, "runtime"@);
        assert(r1.len() > 0 && r1.last() != '/');
    }
    string_of(v.as_slice())
}

/// `cpu` is not a GPU mode, and the three mode names differ.
pub proof fn lemma_mode_names_distinct()
    ensures
        !is_gpu_mode("cpu"@),
        "cpu"@ != "gpu"@,
        "cpu"@ != "hybrid"@,
        "gpu"@ != "hybrid"@,
{
    reveal_strlit("cpu");
    reveal_strlit("gpu");
    reveal_strlit("hybrid");
    assert("cpu"@[0] != "gpu"@[0]);
    assert("cpu"@.len() != "hybrid"@.len());
    assert("gpu"@.len() != "hybrid"@.len());
}

/// In CPU mode the runtime directory ignores the backend and CUDA version.
pub proof fn lemma_cpu_runtime_dir_ignores_backend(
    llm: Seq<char>,
    b1: Seq<char>,
    c1: Seq<char>,
    b2: Seq<char>,
    c2: Seq<char>,
)
    ensures
        runtime_dir_of(llm, "cpu"@, b1, c1) == runtime_dir_of(llm, "cpu"@, b2, c2),
{
    lemma_mode_names_distinct();
}

/// Distinct CUDA versions get distinct runtime directories.
pub proof fn lemma_cuda_runtime_dirs_distinct(llm: Seq<char>, mode: Seq<char>, c1: Seq<char>, c2: Seq<char>)
    requires
        is_gpu_mode(mode),
        c1 != c2,
    ensures
        runtime_dir_of(llm, mode, "cuda"@, c1) != runtime_dir_of(llm, mode, "cuda"@, c2),
{
    reveal_strlit("cuda");
    reveal_strlit("cuda-");
    let base = path_join(llm, "runtime"@);
    assert(eq_ignore_ascii_case("cuda"@, "cuda"@));
    if runtime_dir_of(llm, mode, "cuda"@, c1) == runtime_dir_of(llm, mode, "cuda"@, c2) {
        crate::text::lemma_path_join_injective(base, "cuda-"@ + c1, "cuda-"@ + c2);
        assert(c1 =~= ("cuda-"@ + c1).subrange(5, ("cuda-"@ + c1).len() as int));
        assert(c2 =~= ("cuda-"@ + c2).subrange(5, ("cuda-"@ + c2).len() as int));
    }
}

/// `gpu`/`cuda` with versions 13.1 and 12.4 resolve to different directories.
pub proof fn lemma_cuda_13_1_and_12_4_distinct(llm: Seq<char>)
    ensures
        runtime_dir_of(llm, "gpu"@, "cuda"@, "13.1"@) != runtime_dir_of(llm, "gpu"@, "cuda"@, "12.4"@),
{
    reveal_strlit("13.1");
    reveal_strlit("12.4");
    reveal_strlit("gpu");
    assert("13.1"@[1] != "12.4"@[1]);
    lemma_cuda_runtime_dirs_distinct(llm, "gpu"@, "13.1"@, "12.4"@);
}

} // verus!
