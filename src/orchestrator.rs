//! Requests to the supervisor and the auto-start search: the options of a
//! request normalised into a server configuration, and the degrade-and-retry
//! walk over (compute mode, backend) candidates and descending tiers.

use vstd::prelude::*;
use crate::catalog::{builtin_id, opt_view, sanitize_model_id, sanitized};
use crate::config::{
    Platform, compute_mode_of, cuda_version_of, opt_str_view, gpu_backend_of, is_gpu_mode, normalize_compute_mode,
    normalize_cuda_version, normalize_gpu_backend, uses_gpu,
};
use crate::supervisor::{BuiltinLlmStatus, ServerConfig};
use crate::text::{owned, str_eq};
use crate::tier::{
    BuiltinProbeResult, candidates_of, clamp_gpu_layers_by_vram, compute_candidates,
    layers_clamped, normalize_preferred_compute, opt_str, pairs_view,
    parse_preferred_tier, preferred_compute_of, preferred_tier_of, recommended_tier_of,
    starting_tier, tier_to_model_id,
};

verus! {

/// The options of a request to install or run a model.
pub struct BuiltinLlmOptions {
    pub model_id: Option<String>,
    pub mode: Option<String>,
    pub compute_mode: Option<String>,
    pub gpu_backend: Option<String>,
    pub gpu_layers: Option<i32>,
    pub cuda_version: Option<String>,
    pub model_url: Option<String>,
    pub runtime_url: Option<String>,
    pub cudart_url: Option<String>,
}

/// The options of an automatic start.
pub struct BuiltinAutoStartOptions {
    pub allow_download: Option<bool>,
    pub preferred_tier: Option<String>,
    pub preferred_compute: Option<String>,
    pub gpu_layers: Option<i32>,
    pub cuda_version: Option<String>,
}

/// What an automatic start chose, with the server's status and the probe.
pub struct BuiltinAutoStartResult {
    pub chosen_model_id: String,
    pub chosen_compute_mode: String,
    pub chosen_gpu_backend: String,
    pub chosen_cuda_version: String,
    pub status: BuiltinLlmStatus,
    pub probe: BuiltinProbeResult,
}

/// A string field of optional request options.
pub open spec fn field(o: Option<BuiltinLlmOptions>, f: spec_fn(BuiltinLlmOptions) -> Option<String>) -> Option<Seq<char>> {
    match o {
        Some(x) => opt_view(f(x)),
        None => None,
    }
}

/// The GPU layers a request asks for: 20 when absent, never negative.
pub open spec fn requested_layers(o: Option<BuiltinLlmOptions>) -> int {
    let l = match o {
        Some(x) => match x.gpu_layers {
            Some(l) => l as int,
            None => 20,
        },
        None => 20,
    };
    if l < 0 {
        0
    } else {
        l
    }
}

fn copy_opt(o: &Option<String>) -> (r: Option<String>)
    ensures
        opt_view(r) == opt_view(*o),
{
    match o {
        Some(s) => Some(s.clone()),
        None => None,
    }
}

/// The server configuration a request asks for, and whether it lets missing
/// files be downloaded (any mode but `bundled_only`).
pub fn server_request(options: &Option<BuiltinLlmOptions>, platform: Platform) -> (r: (ServerConfig, bool))
    ensures
        r.0.model_id@ == sanitized(field(*options, |x: BuiltinLlmOptions| x.model_id)),
        r.0.compute_mode@ == compute_mode_of((field(*options, |x: BuiltinLlmOptions| x.compute_mode))),
        r.0.gpu_backend@ == gpu_backend_of((field(*options, |x: BuiltinLlmOptions| x.gpu_backend)), platform),
        r.0.cuda_version@ == cuda_version_of((field(*options, |x: BuiltinLlmOptions| x.cuda_version))),
        r.0.gpu_layers as int == requested_layers(*options),
        r.1 == (field(*options, |x: BuiltinLlmOptions| x.mode) != Some("bundled_only"@)),
{
    let (id, mode, compute, backend, cuda, layers) = match options {
        Some(o) => (
            copy_opt(&o.model_id),
            opt_str(&o.mode),
            opt_str(&o.compute_mode),
            opt_str(&o.gpu_backend),
            opt_str(&o.cuda_version),
            match o.gpu_layers {
                Some(l) => l,
                None => 20,
            },
        ),
        None => (None, None, None, None, None, 20),
    };
    let allow_download = match mode {
        Some(m) => !str_eq(m, "bundled_only"),
        None => true,
    };
    let config = ServerConfig {
        model_id: sanitize_model_id(id),
        compute_mode: owned(normalize_compute_mode(compute)),
        gpu_backend: owned(normalize_gpu_backend(backend, platform)),
        gpu_layers: if layers < 0 { 0 } else { layers },
        cuda_version: owned(normalize_cuda_version(cuda)),
    };
    (config, allow_download)
}


/// The attempts left from candidate `from` on: each candidate's tiers from its
/// starting tier down to 0.
pub open spec fn attempts_from(starts: Seq<i32>, from: int) -> int
    decreases starts.len() - from,
{
    if from >= starts.len() {
        0
    } else {
        starts[from] + 1 + attempts_from(starts, from + 1)
    }
}

/// The state of an automatic start: the candidates in order, the starting tier
/// of each, and the (candidate, tier) pair to try next.
pub struct AutoStart {
    pub candidates: Vec<(&'static str, &'static str)>,
    pub starts: Vec<i32>,
    pub index: usize,
    pub tier: i32,
    pub allow_download: bool,
    pub gpu_layers: i32,
    pub cuda_version: &'static str,
    pub vram_bytes: Option<u64>,
}

/// The preferred-tier field of optional auto-start options.
pub open spec fn auto_tier_field(o: Option<BuiltinAutoStartOptions>) -> Option<Seq<char>> {
    match o {
        Some(x) => opt_view(x.preferred_tier),
        None => None,
    }
}

/// The preferred-compute field of optional auto-start options.
pub open spec fn auto_compute_field(o: Option<BuiltinAutoStartOptions>) -> Option<Seq<char>> {
    match o {
        Some(x) => opt_view(x.preferred_compute),
        None => None,
    }
}

/// The CUDA-version field of optional auto-start options.
pub open spec fn auto_cuda_field(o: Option<BuiltinAutoStartOptions>) -> Option<Seq<char>> {
    match o {
        Some(x) => opt_view(x.cuda_version),
        None => None,
    }
}

/// The tier preference as an optional integer.
pub open spec fn opt_int(t: Option<i32>) -> Option<int> {
    match t {
        Some(x) => Some(x as int),
        None => None,
    }
}

impl AutoStart {
    /// The search's bookkeeping agrees with itself.
    pub open spec fn wf(&self) -> bool {
        &&& self.candidates@.len() == self.starts@.len()
        &&& self.candidates@.len() >= 1
        &&& self.index <= self.candidates@.len()
        &&& forall|i: int| 0 <= i < self.starts@.len() ==> 0 <= #[trigger] self.starts@[i] <= 5
        &&& self.index < self.candidates@.len() ==> 0 <= self.tier <= self.starts@[self.index as int]
        &&& self.gpu_layers >= 0
    }

    /// The search has tried every candidate and tier.
    pub open spec fn exhausted(&self) -> bool {
        self.index >= self.candidates@.len()
    }

    /// The attempts still to make, this one included.
    pub open spec fn remaining(&self) -> int {
        if self.exhausted() {
            0
        } else {
            self.tier + 1 + attempts_from(self.starts@, self.index + 1)
        }
    }

    /// A search over the candidates of `candidates_of`, each from the tier
    /// that `recommended_tier_of` gives in its mode.
    pub fn new(probe: &BuiltinProbeResult, options: &Option<BuiltinAutoStartOptions>, platform: Platform) -> (r: AutoStart)
        ensures
            r.wf(),
            r.index == 0,
            r.tier == r.starts@[0],
            r.remaining() == attempts_from(r.starts@, 0),
            pairs_view(r.candidates@) == candidates_of(probe, preferred_compute_of(auto_compute_field(*options)), platform),
            forall|i: int| 0 <= i < r.starts@.len() ==> #[trigger] r.starts@[i] == recommended_tier_of(
                probe,
                preferred_tier_of(auto_tier_field(*options)),
                r.candidates@[i].0@,
            ),
            r.cuda_version@ == cuda_version_of(auto_cuda_field(*options)),
            r.allow_download == match *options {
                Some(o) => match o.allow_download {
                    Some(b) => b,
                    None => true,
                },
                None => true,
            },
            r.vram_bytes == probe.vram_bytes,
            r.gpu_layers as int == ({
                let l = match *options {
                    Some(o) => match o.gpu_layers {
                        Some(l) => l as int,
                        None => 20,
                    },
                    None => 20,
                };
                if l < 0 { 0 } else { l }
            }),
    {
        let (tier_raw, compute_raw, cuda_raw, allow, layers) = match options {
            Some(o) => (
                opt_str(&o.preferred_tier),
                opt_str(&o.preferred_compute),
                opt_str(&o.cuda_version),
                match o.allow_download {
                    Some(b) => b,
                    None => true,
                },
                match o.gpu_layers {
                    Some(l) => l,
                    None => 20,
                },
            ),
            None => (None, None, None, true, 20),
        };
        let preferred_tier = parse_preferred_tier(tier_raw);
        let preferred_compute = normalize_preferred_compute(compute_raw);
        let candidates = compute_candidates(probe, preferred_compute, platform);
        assert(opt_int(preferred_tier) == preferred_tier_of(opt_str_view(tier_raw)));
        let mut starts: Vec<i32> = Vec::new();
        let mut i: usize = 0;
        while i < candidates.len()
            invariant
                i <= candidates@.len(),
                starts@.len() == i,
                forall|j: int| 0 <= j < i ==> 0 <= #[trigger] starts@[j] <= 5,
                opt_int(preferred_tier) == preferred_tier_of(opt_str_view(tier_raw)),
                forall|j: int| 0 <= j < i ==> #[trigger] starts@[j] == recommended_tier_of(
                    probe,
                    preferred_tier_of(opt_str_view(tier_raw)),
                    candidates@[j].0@,
                ),
            decreases candidates@.len() - i,
        {
            let t = starting_tier(probe, preferred_tier, candidates[i].0);
            starts.push(t);
            i = i + 1;
        }
        let first = starts[0];
        AutoStart {
            candidates,
            starts,
            index: 0,
            tier: first,
            allow_download: allow,
            gpu_layers: if layers < 0 { 0 } else { layers },
            cuda_version: normalize_cuda_version(cuda_raw),
            vram_bytes: probe.vram_bytes,
        }
    }

    /// The request for the current attempt, or `None` once the search is exhausted:
    /// the tier's model in the candidate's mode and backend, with the requested
    /// GPU layers clamped by VRAM in a GPU mode and none on the CPU.
    pub fn attempt(&self) -> (r: Option<BuiltinLlmOptions>)
        requires
            self.wf(),
        ensures
            self.exhausted() ==> r is None,
            !self.exhausted() ==> r is Some && ({
                let o = r->0;
                let c = self.candidates@[self.index as int];
                &&& opt_view(o.model_id) == Some(builtin_id(self.tier as int))
                &&& opt_view(o.compute_mode) == Some(c.0@)
                &&& opt_view(o.gpu_backend) == Some(c.1@)
                &&& opt_view(o.cuda_version) == Some(self.cuda_version@)
                &&& opt_view(o.mode) == Some(if self.allow_download { "auto"@ } else { "bundled_only"@ })
                &&& o.gpu_layers == Some(
                    if is_gpu_mode(c.0@) {
                        layers_clamped(self.gpu_layers as int, self.vram_bytes) as i32
                    } else {
                        0i32
                    },
                )
                &&& o.model_url is None && o.runtime_url is None && o.cudart_url is None
            }),
    {
        if self.index >= self.candidates.len() {
            return None;
        }
        let (mode, backend) = self.candidates[self.index];
        let layers = if uses_gpu(mode) {
            clamp_gpu_layers_by_vram(self.gpu_layers, self.vram_bytes)
        } else {
            0
        };
        Some(BuiltinLlmOptions {
            model_id: Some(tier_to_model_id(self.tier, 0)),
            mode: Some(owned(if self.allow_download { "auto" } else { "bundled_only" })),
            compute_mode: Some(owned(mode)),
            gpu_backend: Some(owned(backend)),
            gpu_layers: Some(layers),
            cuda_version: Some(owned(self.cuda_version)),
            model_url: None,
            runtime_url: None,
            cudart_url: None,
        })
    }

    /// The current attempt failed: step down one tier, or on to the next
    /// candidate's starting tier after tier 0. Each failure uses up exactly one
    /// of the remaining attempts, so the search ends.
    pub fn failed(&mut self)
        requires
            old(self).wf(),
            !old(self).exhausted(),
        ensures
            final(self).wf(),
            final(self).remaining() == old(self).remaining() - 1,
            final(self).candidates@ == old(self).candidates@,
            final(self).starts@ == old(self).starts@,
            old(self).tier > 0 ==> final(self).index == old(self).index && final(self).tier == old(self).tier - 1,
            old(self).tier == 0 ==> final(self).index == old(self).index + 1 && (!final(self).exhausted()
                ==> final(self).tier == final(self).starts@[final(self).index as int]),
            final(self).allow_download == old(self).allow_download,
            final(self).gpu_layers == old(self).gpu_layers,
            final(self).cuda_version == old(self).cuda_version,
            final(self).vram_bytes == old(self).vram_bytes,
    {
        if self.tier > 0 {
            self.tier = self.tier - 1;
            return;
        }
        let n = self.candidates.len();
        assert(self.index < n);
        self.index = self.index + 1;
        if self.index < self.starts.len() {
            self.tier = self.starts[self.index];
        }
    }

    /// The result of a search that succeeded at the current attempt.
    pub fn result(&self, status: BuiltinLlmStatus, probe: BuiltinProbeResult) -> (r: BuiltinAutoStartResult)
        requires
            self.wf(),
            !self.exhausted(),
        ensures
            r.chosen_model_id@ == builtin_id(self.tier as int),
            r.chosen_compute_mode@ == self.candidates@[self.index as int].0@,
            r.chosen_gpu_backend@ == self.candidates@[self.index as int].1@,
            r.chosen_cuda_version@ == self.cuda_version@,
            r.status == status,
            r.probe == probe,
    {
        let (mode, backend) = self.candidates[self.index];
        BuiltinAutoStartResult {
            chosen_model_id: tier_to_model_id(self.tier, 0),
            chosen_compute_mode: owned(mode),
            chosen_gpu_backend: owned(backend),
            chosen_cuda_version: owned(self.cuda_version),
            status,
            probe,
        }
    }
}

/// The search is exhausted exactly when no attempt remains.
pub proof fn lemma_exhausted_iff_no_attempts(a: AutoStart)
    requires
        a.wf(),
    ensures
        a.exhausted() <==> a.remaining() == 0,
{
    if !a.exhausted() {
        lemma_attempts_bounded(a.starts@, a.index + 1);
    }
}

/// The search is bounded: it makes at most six attempts per candidate.
pub proof fn lemma_attempts_bounded(starts: Seq<i32>, from: int)
    requires
        0 <= from,
        forall|i: int| 0 <= i < starts.len() ==> 0 <= #[trigger] starts[i] <= 5,
    ensures
        0 <= attempts_from(starts, from) <= 6 * (if from <= starts.len() { starts.len() - from } else { 0 }),
    decreases starts.len() - from,
{
    if from < starts.len() {
        lemma_attempts_bounded(starts, from + 1);
    }
}


/// What the runtime status query reports.
pub struct RuntimeStatusResult {
    pub installed: bool,
    pub runtime_dir_path: String,
    pub compute_mode: String,
    pub gpu_backend: String,
    pub cuda_version: String,
}

/// The runtime status of the configuration a request names, given whether the
/// caller found the server executable in that configuration's directory.
pub fn runtime_status(llm_dir: &str, options: &Option<BuiltinLlmOptions>, platform: Platform, installed: bool) -> (r: RuntimeStatusResult)
    ensures
        r.installed == installed,
        r.compute_mode@ == compute_mode_of(field(*options, |x: BuiltinLlmOptions| x.compute_mode)),
        r.gpu_backend@ == gpu_backend_of(field(*options, |x: BuiltinLlmOptions| x.gpu_backend), platform),
        r.cuda_version@ == cuda_version_of(field(*options, |x: BuiltinLlmOptions| x.cuda_version)),
        r.runtime_dir_path@ == crate::config::runtime_dir_of(llm_dir@, r.compute_mode@, r.gpu_backend@, r.cuda_version@),
{
    let (cfg, _) = server_request(options, platform);
    RuntimeStatusResult {
        installed,
        runtime_dir_path: crate::config::runtime_dir(
            llm_dir,
            cfg.compute_mode.as_str(),
            cfg.gpu_backend.as_str(),
            cfg.cuda_version.as_str(),
        ),
        compute_mode: cfg.compute_mode,
        gpu_backend: cfg.gpu_backend,
        cuda_version: cfg.cuda_version,
    }
}

/// The options of a benchmark run.
pub struct BenchmarkOptions {
    pub compute_mode: Option<String>,
    pub gpu_backend: Option<String>,
    pub cuda_version: Option<String>,
    pub gpu_layers: Option<i32>,
}

/// The benchmark tool's arguments: the smallest model, generation only (64
/// tokens, one repetition), JSON output, and in a GPU mode the requested GPU
/// layers (20 when absent) clamped by VRAM, otherwise none.
pub open spec fn bench_args_of(model_path: Seq<char>, mode: Seq<char>, layers: int, vram: Option<u64>) -> Seq<Seq<char>> {
    let ngl = if is_gpu_mode(mode) {
        crate::text::decimal(layers_clamped(layers, vram) as nat)
    } else {
        "0"@
    };
    seq![
        "-m"@, model_path, "-p"@, "0"@, "-n"@, "64"@, "-r"@, "1"@, "-ngl"@, ngl, "-o"@, "json"@,
    ]
}

/// The requested GPU layers of a benchmark: 20 when absent.
pub open spec fn bench_layers(o: Option<BenchmarkOptions>) -> int {
    match o {
        Some(x) => match x.gpu_layers {
            Some(l) => l as int,
            None => 20,
        },
        None => 20,
    }
}

/// The compute-mode field of optional benchmark options.
pub open spec fn bench_mode_field(o: Option<BenchmarkOptions>) -> Option<Seq<char>> {
    match o {
        Some(x) => opt_view(x.compute_mode),
        None => None,
    }
}

/// The benchmark tool's arguments for a run with `options` on the model at `model_path`.
pub fn bench_args(model_path: &str, options: &Option<BenchmarkOptions>, vram_bytes: Option<u64>) -> (r: Vec<String>)
    ensures
        crate::mirror::strs_view(r@) == bench_args_of(
            model_path@,
            compute_mode_of(bench_mode_field(*options)),
            bench_layers(*options),
            vram_bytes,
        ),
{
    let (mode_raw, layers) = match options {
        Some(o) => (opt_str(&o.compute_mode), match o.gpu_layers {
            Some(l) => l,
            None => 20,
        }),
        None => (None, 20),
    };
    let mode = normalize_compute_mode(mode_raw);
    let ngl = if uses_gpu(mode) {
        let l = clamp_gpu_layers_by_vram(layers, vram_bytes);
        crate::supervisor::decimal_string(l as u64)
    } else {
        owned("0")
    };
    let r = vec![
        owned("-m"),
        owned(model_path),
        owned("-p"),
        owned("0"),
        owned("-n"),
        owned("64"),
        owned("-r"),
        owned("1"),
        owned("-ngl"),
        ngl,
        owned("-o"),
        owned("json"),
    ];
    assert(crate::mirror::strs_view(r@) =~= bench_args_of(
        model_path@,
        compute_mode_of(bench_mode_field(*options)),
        bench_layers(*options),
        vram_bytes,
    ));
    r
}

} // verus!
