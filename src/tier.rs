//! Tier selection: from the machine's capacity (RAM, CPU cores, VRAM) and the
//! user's preferences to a model tier, a compute mode and a GPU backend.

use vstd::prelude::*;
use crate::catalog::{builtin_id, builtin_id_str, opt_view};
use crate::config::{
    Platform, lemma_mode_names_distinct, opt_str_view, cuda_version_of, default_backend, default_gpu_backend,
    is_gpu_mode, normalize_cuda_version, opt_is, uses_gpu,
};
use crate::text::{
    Trim, chars_of, contains_ci, contains_ignore_ascii_case, owned, str_eq,
    trim, trimmed,
};

verus! {

/// Bytes in a gibibyte.
pub const GIB: u64 = 1073741824;

/// What a hardware probe found.
pub struct BuiltinProbeResult {
    pub cpu_cores: usize,
    pub cpu_brand: String,
    pub total_memory_bytes: u64,
    pub vram_bytes: Option<u64>,
    pub gpu_name: Option<String>,
    pub has_cuda: bool,
    pub has_vulkan: bool,
    pub has_metal: bool,
    pub is_apple_silicon: bool,
}

/// A user's preferences for a recommendation.
pub struct BuiltinRecommendOptions {
    pub preferred_tier: Option<String>,
    pub preferred_compute: Option<String>,
    pub cuda_version: Option<String>,
}

/// A recommended model and configuration, with the probe it rests on.
pub struct BuiltinRecommendResult {
    pub recommended_tier: i32,
    pub recommended_model_id: String,
    pub recommended_compute_mode: String,
    pub recommended_gpu_backend: String,
    pub recommended_cuda_version: String,
    pub probe: BuiltinProbeResult,
}

/// The smaller of two integers.
pub open spec fn min(a: int, b: int) -> int {
    if a <= b {
        a
    } else {
        b
    }
}

/// `t` clamped to the tier range 0..=5.
pub open spec fn clamp_tier(t: int) -> int {
    if t < 0 {
        0
    } else if t > 5 {
        5
    } else {
        t
    }
}

/// The tier that RAM of `gb` whole gibibytes allows.
pub open spec fn ram_tier(gb: int) -> int {
    if gb < 8 {
        0
    } else if gb < 12 {
        1
    } else if gb < 20 {
        2
    } else if gb < 32 {
        3
    } else if gb < 48 {
        4
    } else {
        5
    }
}

/// The tier that `cores` logical CPU cores run fluently.
pub open spec fn cpu_tier(cores: int) -> int {
    if cores >= 24 {
        3
    } else if cores >= 20 {
        2
    } else if cores >= 8 {
        1
    } else {
        0
    }
}

/// The tier that VRAM of `gb` whole gibibytes holds.
pub open spec fn vram_tier(gb: int) -> int {
    if gb < 4 {
        0
    } else if gb < 6 {
        1
    } else if gb < 10 {
        2
    } else if gb < 12 {
        3
    } else if gb < 24 {
        4
    } else {
        5
    }
}

/// Whole gibibytes of an optional byte count, absent counting as zero.
pub open spec fn gib_of(bytes: Option<u64>) -> int {
    match bytes {
        Some(b) => b as int / (GIB as int),
        None => 0,
    }
}

/// The tier the machine's resources allow in a compute mode: RAM and CPU
/// cores for `cpu`, RAM and VRAM for the GPU modes `gpu` and `hybrid`.
pub open spec fn resource_tier(mem_gb: int, vram: Option<u64>, mode: Seq<char>, cores: int) -> int {
    if is_gpu_mode(mode) {
        min(ram_tier(mem_gb), vram_tier(gib_of(vram)))
    } else {
        min(ram_tier(mem_gb), cpu_tier(cores))
    }
}

/// `tier` capped by the VRAM ladder when a VRAM size is known.
pub open spec fn vram_capped(tier: int, vram: Option<u64>) -> int {
    match vram {
        Some(v) if v > 0 => clamp_tier(min(tier, vram_tier(v as int / (GIB as int)))),
        _ => tier,
    }
}

/// The most GPU layers that VRAM of `gb` whole gibibytes takes.
pub open spec fn max_layers(gb: int) -> int {
    if gb < 4 {
        0
    } else if gb < 6 {
        8
    } else if gb < 8 {
        16
    } else {
        999
    }
}

/// `layers` (negative counts as zero) capped by the VRAM ladder when a VRAM size is known.
pub open spec fn layers_clamped(layers: int, vram: Option<u64>) -> int {
    let l = if layers < 0 {
        0
    } else {
        layers
    };
    match vram {
        Some(v) if v > 0 => min(l, max_layers(v as int / (GIB as int))),
        _ => l,
    }
}

/// The CPU's tier from its logical core count.
pub fn cpu_performance_tier(cpu_cores: usize) -> (r: i32)
    ensures
        r == cpu_tier(cpu_cores as int),
{
    if cpu_cores >= 24 {
        3
    } else if cpu_cores >= 20 {
        2
    } else if cpu_cores >= 8 {
        1
    } else {
        0
    }
}

fn ram_tier_of(gb: u64) -> (r: i32)
    ensures
        r == ram_tier(gb as int),
{
    if gb < 8 {
        0
    } else if gb < 12 {
        1
    } else if gb < 20 {
        2
    } else if gb < 32 {
        3
    } else if gb < 48 {
        4
    } else {
        5
    }
}

fn vram_tier_of(gb: u64) -> (r: i32)
    ensures
        r == vram_tier(gb as int),
{
    if gb < 4 {
        0
    } else if gb < 6 {
        1
    } else if gb < 10 {
        2
    } else if gb < 12 {
        3
    } else if gb < 24 {
        4
    } else {
        5
    }
}

fn gib(bytes: Option<u64>) -> (r: u64)
    ensures
        r as int == gib_of(bytes),
{
    match bytes {
        Some(b) => b / 1024 / 1024 / 1024,
        None => 0,
    }
}

/// The tier that RAM (in whole GiB), VRAM and CPU cores allow in a compute mode.
pub fn tier_from_resources(total_mem_gb: u64, vram_bytes: Option<u64>, compute_mode: &str, cpu_cores: usize) -> (r: i32)
    ensures
        r == resource_tier(total_mem_gb as int, vram_bytes, compute_mode@, cpu_cores as int),
{
    let ram = ram_tier_of(total_mem_gb);
    let cpu = cpu_performance_tier(cpu_cores);
    if uses_gpu(compute_mode) {
        let vram = vram_tier_of(gib(vram_bytes));
        if ram <= vram { ram } else { vram }
    } else {
        if ram <= cpu { ram } else { cpu }
    }
}

/// Caps a tier by the VRAM ladder when a VRAM size is known.
pub fn cap_tier_by_vram(tier: i32, vram_bytes: Option<u64>) -> (r: i32)
    ensures
        r == vram_capped(tier as int, vram_bytes),
{
    match vram_bytes {
        Some(v) if v > 0 => {
            let cap = vram_tier_of(v / 1024 / 1024 / 1024);
            let t = if tier <= cap { tier } else { cap };
            if t < 0 { 0 } else if t > 5 { 5 } else { t }
        },
        _ => tier,
    }
}

/// Caps the GPU layers offloaded in hybrid mode by the VRAM ladder.
pub fn clamp_gpu_layers_by_vram(layers: i32, vram_bytes: Option<u64>) -> (r: i32)
    ensures
        r == layers_clamped(layers as int, vram_bytes),
{
    let l = if layers < 0 { 0 } else { layers };
    match vram_bytes {
        Some(v) if v > 0 => {
            let gb = v / 1024 / 1024 / 1024;
            let max: i32 = if gb < 4 { 0 } else if gb < 6 { 8 } else if gb < 8 { 16 } else { 999 };
            if l <= max { l } else { max }
        },
        _ => l,
    }
}

/// A GPU whose name marks it as integrated or as a virtual display.
pub open spec fn gpu_name_discounted(name: Seq<char>) -> bool {
    (contains_ignore_ascii_case(name, "intel"@) && (contains_ignore_ascii_case(name, "uhd"@)
        || contains_ignore_ascii_case(name, " hd "@) || contains_ignore_ascii_case(name, "iris"@)))
        || contains_ignore_ascii_case(name, "idddriver"@) || contains_ignore_ascii_case(
        name,
        "virtual"@,
    ) || contains_ignore_ascii_case(name, "remote"@)
}

/// Whether a GPU is worth using: always on unified memory; otherwise it needs
/// at least 2 GiB of VRAM and a name that is not integrated or virtual.
pub open spec fn gpu_useful(name: Option<Seq<char>>, vram: Option<u64>, apple: bool) -> bool {
    if apple {
        true
    } else if gib_of(vram) < 2 {
        false
    } else {
        match name {
            Some(n) => !gpu_name_discounted(n),
            None => true,
        }
    }
}

/// Whether a GPU is worth using for inference.
pub fn is_gpu_worth_using(gpu_name: &Option<String>, vram_bytes: Option<u64>, is_apple_silicon: bool) -> (r: bool)
    ensures
        r == gpu_useful(opt_view(*gpu_name), vram_bytes, is_apple_silicon),
{
    if is_apple_silicon {
        return true;
    }
    if gib(vram_bytes) < 2 {
        return false;
    }
    match gpu_name {
        Some(name) => {
            let n = chars_of(name.as_str());
            let s = n.as_slice();
            if contains_ci(s, "intel") && (contains_ci(s, "uhd") || contains_ci(s, " hd ")
                || contains_ci(s, "iris")) {
                return false;
            }
            if contains_ci(s, "idddriver") || contains_ci(s, "virtual") || contains_ci(s, "remote") {
                return false;
            }
            true
        },
        None => true,
    }
}

/// The identity of the built-in model of a tier.
pub fn tier_to_model_id(tier: i32, _total_mem_gb: u64) -> (r: String)
    ensures
        r@ == builtin_id(tier as int),
{
    let t: usize = if 0 <= tier && tier <= 5 { tier as usize } else { 0 };
    owned(builtin_id_str(t))
}

/// The tier a preference names: `None` for absent, blank, `auto` or anything
/// but a digit 0 to 5, after trimming whitespace.
pub open spec fn preferred_tier_of(raw: Option<Seq<char>>) -> Option<int> {
    match raw {
        None => None,
        Some(s) => {
            let r = trim(s, Trim::Whitespace);
            if r == "0"@ {
                Some(0)
            } else if r == "1"@ {
                Some(1)
            } else if r == "2"@ {
                Some(2)
            } else if r == "3"@ {
                Some(3)
            } else if r == "4"@ {
                Some(4)
            } else if r == "5"@ {
                Some(5)
            } else {
                None
            }
        },
    }
}

/// Parses a tier preference.
pub fn parse_preferred_tier(raw: Option<&str>) -> (r: Option<i32>)
    ensures
        match preferred_tier_of(opt_str_view(raw)) {
            Some(t) => r == Some(t as i32),
            None => r is None,
        },
{
    let s = match raw {
        Some(s) => s,
        None => return None,
    };
    let v = chars_of(s);
    let t = trimmed(v.as_slice(), Trim::Whitespace);
    proof {
        reveal_strlit("0");
        reveal_strlit("1");
        reveal_strlit("2");
        reveal_strlit("3");
        reveal_strlit("4");
        reveal_strlit("5");
    }
    if t.len() != 1 {
        return None;
    }
    let c = t[0];
    assert(t@ =~= seq![c]);
    assert("0"@ =~= seq!['0']);
    assert("1"@ =~= seq!['1']);
    assert("2"@ =~= seq!['2']);
    assert("3"@ =~= seq!['3']);
    assert("4"@ =~= seq!['4']);
    assert("5"@ =~= seq!['5']);
    if c == '0' {
        Some(0)
    } else if c == '1' {
        Some(1)
    } else if c == '2' {
        Some(2)
    } else if c == '3' {
        Some(3)
    } else if c == '4' {
        Some(4)
    } else if c == '5' {
        Some(5)
    } else {
        None
    }
}

/// The compute mode a preference pins, if it names one exactly.
pub open spec fn preferred_compute_of(raw: Option<Seq<char>>) -> Option<Seq<char>> {
    if opt_is(raw, "cpu"@) {
        Some("cpu"@)
    } else if opt_is(raw, "gpu"@) {
        Some("gpu"@)
    } else if opt_is(raw, "hybrid"@) {
        Some("hybrid"@)
    } else {
        None
    }
}

/// Parses a compute mode preference.
pub fn normalize_preferred_compute(raw: Option<&str>) -> (r: Option<&'static str>)
    ensures
        match preferred_compute_of(opt_str_view(raw)) {
            Some(m) => r is Some && r->0@ == m,
            None => r is None,
        },
{
    match raw {
        Some(s) => if str_eq(s, "cpu") {
            Some("cpu")
        } else if str_eq(s, "gpu") {
            Some("gpu")
        } else if str_eq(s, "hybrid") {
            Some("hybrid")
        } else {
            None
        },
        None => None,
    }
}


/// The view of an optional string field as an optional string slice.
pub fn opt_str(o: &Option<String>) -> (r: Option<&str>)
    ensures
        opt_str_view(r) == opt_view(*o),
{
    match o {
        Some(s) => Some(s.as_str()),
        None => None,
    }
}

/// The backend used when the user pins a compute mode: CUDA, then Metal, when
/// the mode uses a GPU and the machine has it; the platform default otherwise.
pub open spec fn pinned_backend(mode: Seq<char>, has_cuda: bool, has_metal: bool, p: Platform) -> Seq<char> {
    if is_gpu_mode(mode) && has_cuda {
        "cuda"@
    } else if is_gpu_mode(mode) && has_metal {
        "metal"@
    } else {
        default_backend(p)
    }
}

/// Whether the probed GPU is worth using.
pub open spec fn probe_gpu_useful(probe: &BuiltinProbeResult) -> bool {
    gpu_useful(opt_view(probe.gpu_name), probe.vram_bytes, probe.is_apple_silicon)
}

/// The (compute mode, backend) candidates in order of preference: the pinned
/// mode alone when the user names one; else Metal, CUDA and Vulkan (hybrid),
/// each when present and the GPU is useful, and finally the CPU.
pub open spec fn candidates_of(probe: &BuiltinProbeResult, pref: Option<Seq<char>>, p: Platform) -> Seq<(Seq<char>, Seq<char>)> {
    match pref {
        Some(pc) => seq![(pc, pinned_backend(pc, probe.has_cuda, probe.has_metal, p))],
        None => {
            let useful = probe_gpu_useful(probe);
            let metal: Seq<(Seq<char>, Seq<char>)> = if probe.has_metal && useful {
                seq![("gpu"@, "metal"@)]
            } else {
                seq![]
            };
            let cuda: Seq<(Seq<char>, Seq<char>)> = if probe.has_cuda && useful {
                seq![("gpu"@, "cuda"@)]
            } else {
                seq![]
            };
            let vulkan: Seq<(Seq<char>, Seq<char>)> = if probe.has_vulkan && useful {
                seq![("hybrid"@, "vulkan"@)]
            } else {
                seq![]
            };
            metal + cuda + vulkan + seq![("cpu"@, "none"@)]
        },
    }
}

/// The views of a list of (compute mode, backend) pairs.
pub open spec fn pairs_view(v: Seq<(&str, &str)>) -> Seq<(Seq<char>, Seq<char>)> {
    v.map_values(|c: (&str, &str)| (c.0@, c.1@))
}

/// The (compute mode, backend) candidates to try, in order.
pub fn compute_candidates(probe: &BuiltinProbeResult, preferred_compute: Option<&'static str>, platform: Platform) -> (r: Vec<(&'static str, &'static str)>)
    ensures
        pairs_view(r@) == candidates_of(probe, opt_str_view(preferred_compute), platform),
        r@.len() >= 1,
{
    let ghost spec_r = candidates_of(probe, opt_str_view(preferred_compute), platform);
    let mut out: Vec<(&'static str, &'static str)> = Vec::new();
    if let Some(pc) = preferred_compute {
        let gpu = uses_gpu(pc);
        let backend = if gpu && probe.has_cuda {
            "cuda"
        } else if gpu && probe.has_metal {
            "metal"
        } else {
            default_gpu_backend(platform)
        };
        out.push((pc, backend));
        assert(pairs_view(out@) =~= spec_r);
        return out;
    }
    let useful = is_gpu_worth_using(&probe.gpu_name, probe.vram_bytes, probe.is_apple_silicon);
    let ghost g: Seq<(Seq<char>, Seq<char>)> = seq![];
    if probe.has_metal && useful {
        out.push(("gpu", "metal"));
        proof { g = g.push(("gpu"@, "metal"@)); }
    }
    assert(pairs_view(out@) =~= g);
    if probe.has_cuda && useful {
        out.push(("gpu", "cuda"));
        proof { g = g.push(("gpu"@, "cuda"@)); }
    }
    assert(pairs_view(out@) =~= g);
    if probe.has_vulkan && useful {
        out.push(("hybrid", "vulkan"));
        proof { g = g.push(("hybrid"@, "vulkan"@)); }
    }
    assert(pairs_view(out@) =~= g);
    out.push(("cpu", "none"));
    proof { g = g.push(("cpu"@, "none"@)); }
    assert(pairs_view(out@) =~= g);
    assert(g =~= spec_r);
    out
}

/// Whole gibibytes of the probed RAM.
pub open spec fn mem_gb_of(probe: &BuiltinProbeResult) -> int {
    probe.total_memory_bytes as int / (GIB as int)
}

/// The tier recommended in a compute mode: the preferred tier, or the one the
/// resources allow, clamped to 0..=5, and in a GPU mode capped by VRAM.
pub open spec fn recommended_tier_of(probe: &BuiltinProbeResult, pref_tier: Option<int>, mode: Seq<char>) -> int {
    let base = match pref_tier {
        Some(t) => t,
        None => resource_tier(mem_gb_of(probe), probe.vram_bytes, mode, probe.cpu_cores as int),
    };
    let c = clamp_tier(base);
    if is_gpu_mode(mode) {
        vram_capped(c, probe.vram_bytes)
    } else {
        c
    }
}

/// The tier to start from in a compute mode.
pub fn starting_tier(probe: &BuiltinProbeResult, preferred_tier: Option<i32>, compute_mode: &str) -> (r: i32)
    ensures
        r == recommended_tier_of(
            probe,
            match preferred_tier {
                Some(t) => Some(t as int),
                None => None,
            },
            compute_mode@,
        ),
        0 <= r <= 5,
{
    let base = match preferred_tier {
        Some(t) => t,
        None => tier_from_resources(
            probe.total_memory_bytes / 1024 / 1024 / 1024,
            probe.vram_bytes,
            compute_mode,
            probe.cpu_cores,
        ),
    };
    let c = if base < 0 { 0 } else if base > 5 { 5 } else { base };
    if uses_gpu(compute_mode) {
        cap_tier_by_vram(c, probe.vram_bytes)
    } else {
        c
    }
}

/// The preferred-tier field of optional recommendation options.
pub open spec fn rec_tier_field(o: Option<BuiltinRecommendOptions>) -> Option<Seq<char>> {
    match o {
        Some(x) => opt_view(x.preferred_tier),
        None => None,
    }
}

/// The preferred-compute field of optional recommendation options.
pub open spec fn rec_compute_field(o: Option<BuiltinRecommendOptions>) -> Option<Seq<char>> {
    match o {
        Some(x) => opt_view(x.preferred_compute),
        None => None,
    }
}

/// The CUDA-version field of optional recommendation options.
pub open spec fn rec_cuda_field(o: Option<BuiltinRecommendOptions>) -> Option<Seq<char>> {
    match o {
        Some(x) => opt_view(x.cuda_version),
        None => None,
    }
}

/// Recommends a model, compute mode and backend for the probed machine: the
/// first candidate of `candidates_of`, at `recommended_tier_of` in its mode.
pub fn recommend(probe: BuiltinProbeResult, options: Option<BuiltinRecommendOptions>, platform: Platform) -> (r: BuiltinRecommendResult)
    ensures
        r.recommended_compute_mode@ == candidates_of(&probe, preferred_compute_of(rec_compute_field(options)), platform)[0].0,
        r.recommended_gpu_backend@ == candidates_of(&probe, preferred_compute_of(rec_compute_field(options)), platform)[0].1,
        r.recommended_tier as int == recommended_tier_of(
            &probe,
            preferred_tier_of(rec_tier_field(options)),
            r.recommended_compute_mode@,
        ),
        r.recommended_model_id@ == builtin_id(r.recommended_tier as int),
        r.recommended_cuda_version@ == cuda_version_of(rec_cuda_field(options)),
        r.probe == probe,
{
    let (tier_raw, compute_raw, cuda_raw) = match &options {
        Some(o) => (opt_str(&o.preferred_tier), opt_str(&o.preferred_compute), opt_str(&o.cuda_version)),
        None => (None, None, None),
    };
    let preferred_tier = parse_preferred_tier(tier_raw);
    let preferred_compute = normalize_preferred_compute(compute_raw);
    let cuda = normalize_cuda_version(cuda_raw);
    let candidates = compute_candidates(&probe, preferred_compute, platform);
    let (mode, backend) = candidates[0];
    assert(pairs_view(candidates@)[0] == (mode@, backend@));
    let tier = starting_tier(&probe, preferred_tier, mode);
    let total_mem_gb = probe.total_memory_bytes / 1024 / 1024 / 1024;
    BuiltinRecommendResult {
        recommended_tier: tier,
        recommended_model_id: tier_to_model_id(tier, total_mem_gb),
        recommended_compute_mode: owned(mode),
        recommended_gpu_backend: owned(backend),
        recommended_cuda_version: owned(cuda),
        probe,
    }
}

/// With under 8 GiB of RAM the resources allow tier 0 whatever the VRAM, the
/// CPU cores or the compute mode.
pub proof fn lemma_low_ram_gives_tier_zero(mem_gb: int, vram: Option<u64>, mode: Seq<char>, cores: int)
    requires
        0 <= mem_gb < 8,
    ensures
        resource_tier(mem_gb, vram, mode, cores) == 0,
{
}

/// With under 8 GiB of RAM and no preferred tier, the recommended tier is 0 in
/// every compute mode.
pub proof fn lemma_low_ram_recommends_tier_zero(probe: &BuiltinProbeResult, mode: Seq<char>)
    requires
        probe.total_memory_bytes < 8 * GIB,
    ensures
        recommended_tier_of(probe, None, mode) == 0,
{
    assert(mem_gb_of(probe) < 8);
}

/// 32 GiB of RAM, no GPU and 16 CPU cores, with no preferences: the CPU is
/// chosen, and the core ladder caps the tier at 1, below what the RAM ladder allows.
pub proof fn lemma_cpu_only_machine(probe: &BuiltinProbeResult, p: Platform)
    requires
        probe.total_memory_bytes == 32 * GIB,
        probe.cpu_cores == 16,
        !probe.has_cuda,
        !probe.has_vulkan,
        !probe.has_metal,
    ensures
        candidates_of(probe, None, p)[0] == ("cpu"@, "none"@),
        recommended_tier_of(probe, None, "cpu"@) == 1,
        ram_tier(mem_gb_of(probe)) >= 3,
{
    lemma_mode_names_distinct();
    assert(candidates_of(probe, None, p) =~= seq![("cpu"@, "none"@)]);
}

/// 8 GiB of VRAM on a useful GPU, in GPU mode with no preferred tier: the VRAM
/// ladder caps the tier at 2 whenever RAM allows at least that.
pub proof fn lemma_eight_gib_vram_gpu_mode(probe: &BuiltinProbeResult)
    requires
        probe.vram_bytes == Some((8 * GIB) as u64),
        ram_tier(mem_gb_of(probe)) >= 2,
    ensures
        recommended_tier_of(probe, None, "gpu"@) == 2,
{
    assert(gib_of(probe.vram_bytes) == 8);
}

/// A machine with CUDA or Metal and a useful GPU is recommended GPU mode when
/// the user pins nothing.
pub proof fn lemma_useful_gpu_chooses_gpu_mode(probe: &BuiltinProbeResult, p: Platform)
    requires
        probe_gpu_useful(probe),
        probe.has_cuda || probe.has_metal,
    ensures
        candidates_of(probe, None, p)[0].0 == "gpu"@,
{
}

/// The tier that a benchmark speed of the smallest model supports, from whole
/// tokens per second: each threshold is where the next model, scaled by its
/// size ratio, still reaches about 8 tokens per second.
pub open spec fn benchmark_tier(tps: int) -> int {
    if tps >= 420 {
        5
    } else if tps >= 185 {
        4
    } else if tps >= 100 {
        3
    } else if tps >= 50 {
        2
    } else if tps >= 20 {
        1
    } else {
        0
    }
}

/// The tier from a benchmark, capped by the RAM ladder and, in a GPU mode, by VRAM.
pub open spec fn benchmark_recommended_tier(tps: int, mem_gb: int, mode: Seq<char>, vram: Option<u64>) -> int {
    let t = min(benchmark_tier(tps), ram_tier(mem_gb));
    if is_gpu_mode(mode) {
        vram_capped(t, vram)
    } else {
        t
    }
}

/// Refines the tier from a measured speed of the smallest model, given as whole
/// tokens per second (every threshold is whole, so the fraction never matters).
/// The capacity ladders still cap the result.
pub fn tier_from_benchmark(tokens_per_second: u64, total_mem_gb: u64, compute_mode: &str, vram_bytes: Option<u64>) -> (r: (i32, String))
    ensures
        r.0 == benchmark_recommended_tier(tokens_per_second as int, total_mem_gb as int, compute_mode@, vram_bytes),
        r.1@ == builtin_id(r.0 as int),
{
    let tps = tokens_per_second;
    let tier: i32 = if tps >= 420 { 5 } else if tps >= 185 { 4 } else if tps >= 100 { 3 } else if tps >= 50 { 2 } else if tps >= 20 { 1 } else { 0 };
    let ram = ram_tier_of(total_mem_gb);
    let mut t = if tier <= ram { tier } else { ram };
    if uses_gpu(compute_mode) {
        t = cap_tier_by_vram(t, vram_bytes);
    }
    (t, tier_to_model_id(t, total_mem_gb))
}

/// A benchmark never lifts the tier above what RAM allows.
pub proof fn lemma_benchmark_within_ram(tps: int, mem_gb: int, mode: Seq<char>, vram: Option<u64>)
    ensures
        benchmark_recommended_tier(tps, mem_gb, mode, vram) <= ram_tier(mem_gb),
{
}

} // verus!
