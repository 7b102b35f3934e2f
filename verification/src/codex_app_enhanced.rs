//! Decisions of the enhanced Codex App launcher: which models to inject,
//! when the injected configuration counts as live, and the inputs of the
//! Windows activation call.
use vstd::prelude::*;
use crate::config::strs;
use crate::text::{append_str, append_vec, from_chars, to_chars, trim, trim_str};
use crate::tool_names::{decimal, decimal_exec};

verus! {

pub const DEFAULT_CDP_PORT: u16 = 9335;

/// The Application User Model Id of the Codex App store package.
pub const CODEX_APP_USER_MODEL_ID: &'static str = "OpenAI.Codex_2p2nqsd0c76g0!App";

/// The number of feature gates the launcher switches on.
pub const SUPPORTED_FEATURE_GATE_COUNT: usize = 6;

/// The Statsig feature gates the launcher switches on, by id.
pub fn supported_feature_gates() -> (r: Vec<&'static str>)
    ensures
        r.len() == SUPPORTED_FEATURE_GATE_COUNT,
{
    vec!["1042620455", "4114442250", "824038554", "410065390", "2296472986", "3446105535"]
}

/// What the launcher reports after a launch.
#[derive(Debug)]
pub struct EnhancedLaunchReport {
    pub port: u16,
    pub launched: bool,
    pub target_id: String,
    pub available_models: Vec<String>,
    pub use_hidden_models: bool,
    pub key_gates_enabled: usize,
    pub i18n_enabled: bool,
    pub fast_initialize_applied: bool,
    pub fast_initialize_source: Option<String>,
    pub bootstrap_intercepted: bool,
    pub bootstrap_source: Option<String>,
    pub routes_mounted: bool,
    pub renderer_ready_ms: Option<u64>,
    pub startup_elapsed_ms: u64,
}

/// Whether the Codex App is running before a launch.
#[derive(Debug)]
pub struct EnhancedLaunchPreflight {
    pub running: bool,
}

/// The state that the injected script reports from the renderer.
#[derive(Debug)]
pub struct InjectedStatus {
    pub ready: bool,
    pub available_models: Vec<String>,
    pub use_hidden_models: bool,
    pub key_gates_enabled: usize,
    pub i18n_enabled: bool,
    pub fast_initialize_applied: bool,
    pub fast_initialize_source: Option<String>,
    pub bootstrap_intercepted: bool,
    pub bootstrap_source: Option<String>,
    pub routes_mounted: bool,
    pub renderer_ready_ms: Option<u64>,
}

/// Trimmed model names, blanks dropped, each kept at its first occurrence.
pub open spec fn normalize_models(s: Seq<Seq<char>>) -> Seq<Seq<char>>
    decreases s.len(),
{
    if s.len() == 0 {
        s
    } else {
        let r = normalize_models(s.drop_last());
        let m = trim(s.last());
        if m.len() == 0 || r.contains(m) {
            r
        } else {
            r.push(m)
        }
    }
}

fn contains_string(v: &Vec<String>, s: &String) -> (r: bool)
    ensures
        r == strs(v@).contains(s@),
{
    let mut i: usize = 0;
    while i < v.len()
        invariant
            i <= v@.len(),
            forall|j: int| 0 <= j < i ==> strs(v@)[j] != s@,
        decreases v@.len() - i,
    {
        if v[i] == *s {
            assert(strs(v@)[i as int] == s@);
            return true;
        }
        i += 1;
    }
    false
}

/// The model names trimmed, without empty ones and without repeats, in first-seen order.
pub fn normalized_models(models: Vec<String>) -> (r: Vec<String>)
    ensures
        strs(r@) == normalize_models(strs(models@)),
{
    let mut out: Vec<String> = Vec::new();
    let mut i: usize = 0;
    while i < models.len()
        invariant
            i <= models@.len(),
            strs(out@) == normalize_models(strs(models@).take(i as int)),
        decreases models@.len() - i,
    {
        let m = trim_str(models[i].as_str());
        assert(strs(models@).take(i + 1).drop_last() =~= strs(models@).take(i as int));
        assert(strs(models@).take(i + 1).last() == models@[i as int]@);
        if !m.as_str().is_empty() && !contains_string(&out, &m) {
            let ghost b = out@;
            out.push(m);
            assert(strs(out@) =~= strs(b).push(trim(models@[i as int]@)));
        }
        i += 1;
    }
    assert(strs(models@).take(models@.len() as int) =~= strs(models@));
    out
}

fn same_strings(a: &Vec<String>, b: &Vec<String>) -> (r: bool)
    ensures
        r == (strs(a@) == strs(b@)),
{
    if a.len() != b.len() {
        return false;
    }
    let mut i: usize = 0;
    while i < a.len()
        invariant
            i <= a@.len(),
            a@.len() == b@.len(),
            forall|j: int| 0 <= j < i ==> strs(a@)[j] == strs(b@)[j],
        decreases a@.len() - i,
    {
        if a[i] != b[i] {
            assert(strs(a@)[i as int] != strs(b@)[i as int]);
            return false;
        }
        i += 1;
    }
    assert(strs(a@) =~= strs(b@));
    true
}

/// The injected configuration is live: ready, exactly the expected models,
/// hidden models off, every supported gate on and translations on.
pub fn injected_status_is_ready(status: &InjectedStatus, expected_models: &Vec<String>) -> (r: bool)
    ensures
        r == (status.ready && strs(status.available_models@) == strs(expected_models@)
            && !status.use_hidden_models && status.key_gates_enabled == SUPPORTED_FEATURE_GATE_COUNT
            && status.i18n_enabled),
{
    status.ready && same_strings(&status.available_models, expected_models) && !status.use_hidden_models
        && status.key_gates_enabled == SUPPORTED_FEATURE_GATE_COUNT && status.i18n_enabled
}

/// The command line the Codex App is activated with.
pub open spec fn activation_arguments(port: u16) -> Seq<char> {
    "--remote-debugging-address=127.0.0.1 --remote-debugging-port="@ + crate::tool_names::decimal(
        port as nat,
    )
}

pub fn codex_app_activation_arguments(port: u16) -> (r: String)
    ensures
        r@ == activation_arguments(port),
{
    let mut v: Vec<char> = Vec::new();
    append_str(&mut v, "--remote-debugging-address=127.0.0.1 --remote-debugging-port=");
    let d = crate::tool_names::decimal_exec(port as usize);
    crate::text::append_vec(&mut v, &d);
    from_chars(&v)
}

/// The UTF-16 code units of one character.
pub open spec fn utf16_units(c: char) -> Seq<u16> {
    let v = c as u32;
    if v < 0x10000 {
        seq![v as u16]
    } else {
        let w = (v - 0x10000) as nat;
        seq![(0xD800 + w / 1024) as u16, (0xDC00 + w % 1024) as u16]
    }
}

/// The UTF-16 encoding of a character sequence.
pub open spec fn utf16(s: Seq<char>) -> Seq<u16>
    decreases s.len(),
{
    if s.len() == 0 {
        Seq::empty()
    } else {
        utf16(s.drop_last()) + utf16_units(s.last())
    }
}

/// `wide_null_terminated`: UTF-16 followed by a zero unit.
pub fn wide_null_terminated(value: &str) -> (r: Vec<u16>)
    ensures
        r@ == utf16(value@).push(0u16),
{
    let v = to_chars(value);
    let mut out: Vec<u16> = Vec::new();
    let mut i: usize = 0;
    while i < v.len()
        invariant
            i <= v@.len(),
            out@ == utf16(v@.take(i as int)),
        decreases v@.len() - i,
    {
        let c = v[i] as u32;
        assert(v@.take(i + 1).drop_last() =~= v@.take(i as int));
        assert(v@.take(i + 1).last() == v@[i as int]);
        if c < 0x10000 {
            out.push(c as u16);
            assert(out@ =~= utf16(v@.take(i as int)) + utf16_units(v@[i as int]));
        } else {
            let w = c - 0x10000;
            out.push((0xD800 + w / 1024) as u16);
            out.push((0xDC00 + w % 1024) as u16);
            assert(out@ =~= utf16(v@.take(i as int)) + utf16_units(v@[i as int]));
        }
        i += 1;
    }
    assert(v@.take(v@.len() as int) =~= v@);
    out.push(0u16);
    out
}

// ─── the launch sequence ───────────────────────────────────────────────

/// Where an enhanced launch stands.
#[derive(Debug)]
pub enum LaunchState {
    /// Nothing done yet.
    Idle,
    /// The configuration recovery snapshot is being prepared.
    Preparing { models: Vec<String> },
    /// Waiting to learn whether the Codex App already runs.
    Probing { models: Vec<String> },
    /// The app runs: its page target is looked up.
    Finding { models: Vec<String> },
    /// The direct API base is being configured; `target` is the running
    /// app's page target, or `None` when the app is launched next.
    Configuring { models: Vec<String>, target: Option<String> },
    /// The app is being launched and its page target awaited.
    Launching { models: Vec<String> },
    /// The target is ready for injection.
    Ready { models: Vec<String>, launched: bool, target_id: String },
    /// The launch failed.
    Failed,
}

/// The outcome of the step the launcher last performed.
#[derive(Debug)]
pub enum LaunchEvent {
    /// A launch is asked for with these models.
    Begin(Vec<String>),
    SnapshotPrepared(Result<(), String>),
    AppRunning(Result<bool, String>),
    /// The running app's page target, if one answered.
    TargetFound(Result<Option<String>, String>),
    BaseConfigured(Result<(), String>),
    /// The launched app's page target.
    TargetReady(Result<String, String>),
}

/// Why a launch failed: the message, and the error under it when the
/// message only names the step.
#[derive(Debug)]
pub struct LaunchFailure {
    pub message: String,
    pub cause: Option<String>,
}

/// What the launcher does next.
#[derive(Debug)]
pub enum LaunchAction {
    /// Log `log`, then prepare the recovery snapshot.
    PrepareSnapshot { log: String },
    CheckRunning,
    FindTarget,
    ConfigureBase,
    LaunchApp,
    /// Inject the models into the target.
    Inject,
    Fail(LaunchFailure),
    /// The event does not belong to this state: nothing changes.
    Ignore,
}

pub open spec fn no_models_message() -> Seq<char> {
    "Codex 可见模型列表为空，请先在 Codex 接入页面保存模型"@
}

pub open spec fn snapshot_failed_message() -> Seq<char> {
    "准备 Codex 配置恢复快照失败"@
}

pub open spec fn app_busy_message() -> Seq<char> {
    "Codex App 正在运行。请先完全退出，再使用增强模式启动 Codex"@
}

pub open spec fn base_failed_message(e: Seq<char>) -> Seq<char> {
    "配置 CODEX_API_BASE_URL 失败: "@ + e
}

pub open spec fn launch_start_line(model_count: nat) -> Seq<char> {
    "[codex_app_enhanced] event=launch_start model_count="@ + decimal(model_count)
}

pub open spec fn fails_with(a: LaunchAction, message: Seq<char>, cause: Option<Seq<char>>) -> bool {
    &&& a matches LaunchAction::Fail(f)
    &&& f.message@ == message
    &&& match cause {
        Some(c) => f.cause matches Some(x) && x@ == c,
        None => f.cause is None,
    }
}

fn failure(message: &str, cause: Option<String>) -> (r: LaunchAction)
    ensures
        r matches LaunchAction::Fail(f) && f.message@ == message@ && f.cause == cause,
{
    LaunchAction::Fail(LaunchFailure { message: String::from_str(message), cause })
}

/// One step of `launch_and_inject`: models are normalised and must not be
/// empty; the recovery snapshot comes first; a running app must answer with
/// its page target (the API base is configured after it is found), else
/// the API base is configured and the app launched; then the target is
/// injected. Any failed step ends the launch with its error.
pub fn launch_step(s: LaunchState, e: LaunchEvent) -> (r: (LaunchState, LaunchAction))
    ensures
        match (s, e) {
            (LaunchState::Idle, LaunchEvent::Begin(models)) => {
                let n = normalize_models(strs(models@));
                if n.len() == 0 {
                    r.0 is Failed && fails_with(r.1, no_models_message(), None)
                } else {
                    &&& r.0 matches LaunchState::Preparing { models: m } && strs(m@) == n
                    &&& r.1 matches LaunchAction::PrepareSnapshot { log } && log@ == launch_start_line(n.len())
                }
            },
            (LaunchState::Preparing { models }, LaunchEvent::SnapshotPrepared(res)) => match res {
                Ok(_) => r.0 == (LaunchState::Probing { models }) && r.1 is CheckRunning,
                Err(x) => r.0 is Failed && fails_with(r.1, snapshot_failed_message(), Some(x@)),
            },
            (LaunchState::Probing { models }, LaunchEvent::AppRunning(res)) => match res {
                Ok(true) => r.0 == (LaunchState::Finding { models }) && r.1 is FindTarget,
                Ok(false) => r.0 == (LaunchState::Configuring { models, target: None }) && r.1 is ConfigureBase,
                Err(x) => r.0 is Failed && fails_with(r.1, x@, None),
            },
            (LaunchState::Finding { models }, LaunchEvent::TargetFound(res)) => match res {
                Ok(Some(t)) => r.0 == (LaunchState::Configuring { models, target: Some(t) }) && r.1 is ConfigureBase,
                Ok(None) => r.0 is Failed && fails_with(r.1, app_busy_message(), None),
                Err(x) => r.0 is Failed && fails_with(r.1, x@, None),
            },
            (LaunchState::Configuring { models, target }, LaunchEvent::BaseConfigured(res)) => match res {
                Ok(_) => match target {
                    Some(t) => r.0 == (LaunchState::Ready { models, launched: false, target_id: t }) && r.1 is Inject,
                    None => r.0 == (LaunchState::Launching { models }) && r.1 is LaunchApp,
                },
                Err(x) => r.0 is Failed && fails_with(r.1, base_failed_message(x@), None),
            },
            (LaunchState::Launching { models }, LaunchEvent::TargetReady(res)) => match res {
                Ok(t) => r.0 == (LaunchState::Ready { models, launched: true, target_id: t }) && r.1 is Inject,
                Err(x) => r.0 is Failed && fails_with(r.1, x@, None),
            },
            (other, _) => r.0 == other && r.1 is Ignore,
        },
{
    match (s, e) {
        (LaunchState::Idle, LaunchEvent::Begin(models)) => {
            let n = normalized_models(models);
            if n.len() == 0 {
                return (LaunchState::Failed, failure("Codex 可见模型列表为空，请先在 Codex 接入页面保存模型", None));
            }
            let mut log = to_chars("[codex_app_enhanced] event=launch_start model_count=");
            append_vec(&mut log, &decimal_exec(n.len()));
            (LaunchState::Preparing { models: n }, LaunchAction::PrepareSnapshot { log: from_chars(&log) })
        },
        (LaunchState::Preparing { models }, LaunchEvent::SnapshotPrepared(res)) => match res {
            Ok(_) => (LaunchState::Probing { models }, LaunchAction::CheckRunning),
            Err(x) => (LaunchState::Failed, failure("准备 Codex 配置恢复快照失败", Some(x))),
        },
        (LaunchState::Probing { models }, LaunchEvent::AppRunning(res)) => match res {
            Ok(true) => (LaunchState::Finding { models }, LaunchAction::FindTarget),
            Ok(false) => (LaunchState::Configuring { models, target: None }, LaunchAction::ConfigureBase),
            Err(x) => (LaunchState::Failed, LaunchAction::Fail(LaunchFailure { message: x, cause: None })),
        },
        (LaunchState::Finding { models }, LaunchEvent::TargetFound(res)) => match res {
            Ok(Some(t)) => (LaunchState::Configuring { models, target: Some(t) }, LaunchAction::ConfigureBase),
            Ok(None) => (LaunchState::Failed, failure("Codex App 正在运行。请先完全退出，再使用增强模式启动 Codex", None)),
            Err(x) => (LaunchState::Failed, LaunchAction::Fail(LaunchFailure { message: x, cause: None })),
        },
        (LaunchState::Configuring { models, target }, LaunchEvent::BaseConfigured(res)) => match res {
            Ok(_) => match target {
                Some(t) => (LaunchState::Ready { models, launched: false, target_id: t }, LaunchAction::Inject),
                None => (LaunchState::Launching { models }, LaunchAction::LaunchApp),
            },
            Err(x) => {
                let mut m = to_chars("配置 CODEX_API_BASE_URL 失败: ");
                append_str(&mut m, x.as_str());
                (LaunchState::Failed, LaunchAction::Fail(LaunchFailure { message: from_chars(&m), cause: None }))
            },
        },
        (LaunchState::Launching { models }, LaunchEvent::TargetReady(res)) => match res {
            Ok(t) => (LaunchState::Ready { models, launched: true, target_id: t }, LaunchAction::Inject),
            Err(x) => (LaunchState::Failed, LaunchAction::Fail(LaunchFailure { message: x, cause: None })),
        },
        (other, _) => (other, LaunchAction::Ignore),
    }
}

} // verus!
