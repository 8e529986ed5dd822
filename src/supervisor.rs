//! The process supervisor: the single inference server's lifecycle, the
//! reuse-or-restart decision, the stop plan (including a server whose process
//! handle was lost), the launch arguments and the reported status.
//!
//! The caller owns the process handle, performs the spawn, kill and port
//! checks, and reports back; the supervisor decides and keeps the record.

use vstd::prelude::*;
use crate::catalog::{model_id_from_path, model_id_from_path_of};
use crate::text::{
    decimal, eq_ignore_ascii_case, owned, push_decimal, push_str, str_eq,
    str_eq_ignore_ascii_case, string_of,
};

verus! {

/// The configuration a server runs with.
pub struct ServerConfig {
    pub model_id: String,
    pub compute_mode: String,
    pub gpu_backend: String,
    pub gpu_layers: i32,
    pub cuda_version: String,
}

/// The server this supervisor started.
pub struct RunningServer {
    pub port: u16,
    pub model_path: String,
    pub config: ServerConfig,
    /// The caller still holds the process handle; without it the server may be
    /// orphaned, listening on `port`.
    pub has_handle: bool,
}

/// How to stop the current server.
#[derive(PartialEq, Eq, Structural)]
pub enum StopPlan {
    /// Nothing runs: stopping is a no-op.
    Nothing,
    /// Kill the process through its handle (and its tree where the OS allows) and wait for it.
    KillHandle,
    /// The handle was lost: kill the process listening on exactly this port.
    KillByPort(u16),
}

/// What to do on a request to have a server running.
#[derive(PartialEq, Eq, Structural)]
pub enum StartDecision {
    /// The running server has the requested configuration: keep it, on this port.
    Reuse(u16),
    /// Carry out the stop plan, then acquire and start a new server.
    Start(StopPlan),
}

/// What the status queries report.
pub struct BuiltinLlmStatus {
    pub runtime_installed: bool,
    pub model_installed: bool,
    pub model_id: String,
    pub running_model_id: Option<String>,
    pub running_this_model: bool,
    pub running: bool,
    pub base_url: Option<String>,
}

/// The supervisor's record: at most one server.
pub struct Supervisor {
    pub running: Option<RunningServer>,
}

/// What the reuse decision compares: the model, the compute mode and backend,
/// the GPU layers in hybrid mode, and the CUDA version with the CUDA backend.
pub open spec fn same_config(cur: &ServerConfig, req: &ServerConfig) -> bool {
    &&& cur.model_id@ == req.model_id@
    &&& cur.compute_mode@ == req.compute_mode@
    &&& cur.gpu_backend@ == req.gpu_backend@
    &&& (req.compute_mode@ != "hybrid"@ || cur.gpu_layers == req.gpu_layers)
    &&& (!eq_ignore_ascii_case(req.gpu_backend@, "cuda"@) || cur.cuda_version@ == req.cuda_version@)
}

/// How to stop whatever the record holds.
pub open spec fn stop_plan_of(running: Option<RunningServer>) -> StopPlan {
    match running {
        Some(r) => if r.has_handle {
            StopPlan::KillHandle
        } else {
            StopPlan::KillByPort(r.port)
        },
        None => StopPlan::Nothing,
    }
}

/// The decision on a request, given whether the process is alive:
/// reuse a live server with the same configuration; stop a live server with
/// another configuration first; otherwise start afresh.
pub open spec fn decide(running: Option<RunningServer>, req: &ServerConfig, alive: bool) -> StartDecision {
    match running {
        Some(r) if r.has_handle && alive => if same_config(&r.config, req) {
            StartDecision::Reuse(r.port)
        } else {
            StartDecision::Start(stop_plan_of(running))
        },
        _ => StartDecision::Start(StopPlan::Nothing),
    }
}

/// Whether a running configuration matches a request.
pub fn config_matches(cur: &ServerConfig, req: &ServerConfig) -> (r: bool)
    ensures
        r == same_config(cur, req),
{
    str_eq(cur.model_id.as_str(), req.model_id.as_str())
        && str_eq(cur.compute_mode.as_str(), req.compute_mode.as_str())
        && str_eq(cur.gpu_backend.as_str(), req.gpu_backend.as_str())
        && (!str_eq(req.compute_mode.as_str(), "hybrid") || cur.gpu_layers == req.gpu_layers)
        && (!str_eq_ignore_ascii_case(req.gpu_backend.as_str(), "cuda") || str_eq(
        cur.cuda_version.as_str(),
        req.cuda_version.as_str(),
    ))
}

impl Supervisor {
    /// A supervisor with nothing running.
    pub fn new() -> (r: Supervisor)
        ensures
            r.running is None,
    {
        Supervisor { running: None }
    }

    /// The port of the recorded server.
    pub fn current_port(&self) -> (r: Option<u16>)
        ensures
            r == match self.running {
                Some(s) => Some(s.port),
                None => None::<u16>,
            },
    {
        match &self.running {
            Some(s) => Some(s.port),
            None => None,
        }
    }

    /// The server process has exited or its handle is gone: the record keeps
    /// the port, so that a stop can still find a server left listening.
    pub fn handle_lost(&mut self)
        ensures
            match old(self).running {
                Some(s) => final(self).running is Some && final(self).running->0.port == s.port
                    && !final(self).running->0.has_handle,
                None => final(self).running is None,
            },
    {
        if let Some(s) = &mut self.running {
            s.has_handle = false;
        }
    }

    /// Stops the recorded server: returns how, and clears the record.
    pub fn stop(&mut self) -> (r: StopPlan)
        ensures
            r == stop_plan_of(old(self).running),
            final(self).running is None,
    {
        let plan = match &self.running {
            Some(s) => if s.has_handle {
                StopPlan::KillHandle
            } else {
                StopPlan::KillByPort(s.port)
            },
            None => StopPlan::Nothing,
        };
        self.running = None;
        plan
    }

    /// Decides on a request to have a server running with `req`, given whether
    /// the process is alive. A reuse keeps the record; a start clears it
    /// (the caller stops the old server as planned).
    pub fn ensure_running(&mut self, req: &ServerConfig, alive: bool) -> (r: StartDecision)
        ensures
            r == decide(old(self).running, req, alive),
            r is Reuse ==> final(self).running == old(self).running,
            r is Start ==> final(self).running is None,
    {
        let reuse = match &self.running {
            Some(s) => if s.has_handle && alive && config_matches(&s.config, req) {
                Some(s.port)
            } else {
                None
            },
            None => None,
        };
        if let Some(port) = reuse {
            return StartDecision::Reuse(port);
        }
        let live = match &self.running {
            Some(s) => s.has_handle && alive,
            None => false,
        };
        if live {
            StartDecision::Start(self.stop())
        } else {
            self.running = None;
            StartDecision::Start(StopPlan::Nothing)
        }
    }

    /// Whether a server runs: one is recorded with its handle, and the caller
    /// found the process alive.
    pub open spec fn is_running(&self, alive: bool) -> bool {
        match self.running {
            Some(s) => s.has_handle && alive,
            None => false,
        }
    }

    /// The status for `model_id`, given whether the process is alive and what
    /// the caller found installed. The running model is identified from the
    /// recorded model path.
    pub fn status(&self, alive: bool, models_dir: &str, model_id: &str, runtime_installed: bool, model_installed: bool) -> (r: BuiltinLlmStatus)
        ensures
            r.running == self.is_running(alive),
            r.runtime_installed == runtime_installed,
            r.model_installed == model_installed,
            r.model_id@ == model_id@,
            r.running ==> (match model_id_from_path_of(models_dir@, self.running->0.model_path@) {
                Some(id) => r.running_model_id is Some && r.running_model_id->0@ == id,
                None => r.running_model_id is None,
            }),
            !r.running ==> r.running_model_id is None,
            r.running_this_model == (r.running_model_id is Some && r.running_model_id->0@ == model_id@),
            r.running ==> r.base_url is Some && r.base_url->0@ == base_url_of(self.running->0.port),
            !r.running ==> r.base_url is None,
    {
        let (running, running_model_id, url) = match &self.running {
            Some(s) => if s.has_handle && alive {
                (true, model_id_from_path(models_dir, s.model_path.as_str()), Some(base_url(s.port)))
            } else {
                (false, None, None)
            },
            None => (false, None, None),
        };
        let running_this_model = match &running_model_id {
            Some(id) => str_eq(id.as_str(), model_id),
            None => false,
        };
        BuiltinLlmStatus {
            runtime_installed,
            model_installed,
            model_id: owned(model_id),
            running_model_id,
            running_this_model,
            running,
            base_url: url,
        }
    }

    /// Records a server that was spawned on `port` and accepted a connection.
    pub fn started(&mut self, port: u16, model_path: String, config: ServerConfig)
        ensures
            final(self).running == Some(RunningServer { port, model_path, config, has_handle: true }),
    {
        self.running = Some(RunningServer { port, model_path, config, has_handle: true });
    }
}

/// The record right after a server was started.
pub open spec fn after_start(port: u16, model_path: String, config: ServerConfig) -> Option<RunningServer> {
    Some(RunningServer { port, model_path, config, has_handle: true })
}

/// A second request with the configuration a live server was started with
/// reuses it: no new process, the same port.
pub proof fn lemma_identical_request_reuses(port: u16, model_path: String, config: ServerConfig)
    ensures
        decide(after_start(port, model_path, config), &config, true) == StartDecision::Reuse(port),
{
}

/// A request that differs from the live server's configuration only in the
/// model stops the server through its handle and starts a new one.
pub proof fn lemma_model_change_restarts(port: u16, model_path: String, cur: ServerConfig, req: ServerConfig)
    requires
        cur.model_id@ != req.model_id@,
        cur.compute_mode@ == req.compute_mode@,
        cur.gpu_backend@ == req.gpu_backend@,
        cur.gpu_layers == req.gpu_layers,
        cur.cuda_version@ == req.cuda_version@,
    ensures
        decide(after_start(port, model_path, cur), &req, true) == StartDecision::Start(StopPlan::KillHandle),
{
}

/// Stopping with nothing recorded does nothing.
pub proof fn lemma_stop_when_stopped_is_noop()
    ensures
        stop_plan_of(None) == StopPlan::Nothing,
{
}

/// The GPU layers flag for a compute mode: all layers on a GPU, the clamped
/// count in hybrid mode, none on the CPU.
pub open spec fn gpu_layers_arg(mode: Seq<char>, layers: i32) -> Seq<char> {
    if mode == "gpu"@ {
        "999"@
    } else if mode == "hybrid"@ {
        if layers >= 0 {
            decimal(layers as nat)
        } else {
            "-"@ + decimal((-layers) as nat)
        }
    } else {
        "0"@
    }
}

/// The context size the server is launched with.
pub const CONTEXT_SIZE: u64 = 4096;

/// The launch arguments of the server executable.
pub open spec fn launch_args_of(model_path: Seq<char>, port: u16, mode: Seq<char>, layers: i32) -> Seq<Seq<char>> {
    seq![
        "-m"@, model_path, "--host"@, "127.0.0.1"@, "--port"@, decimal(port as nat),
        "--ctx-size"@, decimal(CONTEXT_SIZE as nat), "--jinja"@, "--n-gpu-layers"@,
        gpu_layers_arg(mode, layers),
    ]
}

/// The decimal text of a number.
pub fn decimal_string(n: u64) -> (r: String)
    ensures
        r@ == decimal(n as nat),
{
    let mut v: Vec<char> = Vec::new();
    push_decimal(&mut v, n);
    assert(v@ =~= decimal(n as nat));
    string_of(v.as_slice())
}

/// The launch arguments of the server: model, loopback host, port, context
/// size, chat templates, and the GPU layers flag of the compute mode.
pub fn launch_args(model_path: &str, port: u16, compute_mode: &str, gpu_layers: i32) -> (r: Vec<String>)
    ensures
        crate::mirror::strs_view(r@) == launch_args_of(model_path@, port, compute_mode@, gpu_layers),
{
    let layers = if str_eq(compute_mode, "gpu") {
        owned("999")
    } else if str_eq(compute_mode, "hybrid") {
        if gpu_layers >= 0 {
            decimal_string(gpu_layers as u64)
        } else {
            let mut v: Vec<char> = Vec::new();
            push_str(&mut v, "-");
            push_decimal(&mut v, (-(gpu_layers as i64)) as u64);
            string_of(v.as_slice())
        }
    } else {
        owned("0")
    };
    let r = vec![
        owned("-m"),
        owned(model_path),
        owned("--host"),
        owned("127.0.0.1"),
        owned("--port"),
        decimal_string(port as u64),
        owned("--ctx-size"),
        decimal_string(CONTEXT_SIZE),
        owned("--jinja"),
        owned("--n-gpu-layers"),
        layers,
    ];
    assert(crate::mirror::strs_view(r@) =~= launch_args_of(model_path@, port, compute_mode@, gpu_layers));
    r
}

/// The base URL of a server listening on `port`.
pub open spec fn base_url_of(port: u16) -> Seq<char> {
    "http://127.0.0.1:"@ + decimal(port as nat)
}

/// The base URL of a server listening on `port`.
pub fn base_url(port: u16) -> (r: String)
    ensures
        r@ == base_url_of(port),
{
    let mut v: Vec<char> = Vec::new();
    push_str(&mut v, "http://127.0.0.1:");
    push_decimal(&mut v, port as u64);
    string_of(v.as_slice())
}

} // verus!
