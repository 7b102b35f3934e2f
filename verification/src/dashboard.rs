//! What the desktop dashboard shows for a snapshot of the local service:
//! the three status panels, the Feishu and Codex App details, the status
//! bar and which buttons are enabled. The window itself draws these.
use vstd::prelude::*;
use crate::codex::{join_vecs, join_with, lines_view, or_default};
use crate::text::{append_str, append_vec, from_chars, to_chars, trim, trim_vec};
use crate::tool_names::{decimal, decimal_exec, opt_view, prefix_within, trim_to_char_boundary, utf8_len, utf8_width};

verus! {

// ─── short ids ─────────────────────────────────────────────────────────

/// The whole of `s` fits in `max` bytes exactly when the longest prefix
/// within `max` bytes is all of it.
pub proof fn lemma_prefix_within_whole(s: Seq<char>, max: int)
    requires
        max >= 0,
    ensures
        (prefix_within(s, max).len() == s.len()) == (utf8_len(s) <= max),
    decreases s.len(),
{
    if s.len() > 0 {
        if utf8_width(s[0]) <= max {
            lemma_prefix_within_whole(s.drop_first(), max - utf8_width(s[0]));
        }
    }
}

/// Cutting an id after 18 bytes must fall between two characters.
pub open spec fn short_id_cut_ok(value: Seq<char>) -> bool {
    let t = trim(value);
    utf8_len(t) <= 18 || utf8_len(prefix_within(t, 18)) == 18
}

/// The trimmed id, cut after 18 bytes with `...` when it is longer.
pub open spec fn short_id_spec(value: Seq<char>) -> Seq<char> {
    let t = trim(value);
    if utf8_len(t) <= 18 {
        t
    } else {
        prefix_within(t, 18) + "..."@
    }
}

pub fn short_id(value: &str) -> (r: String)
    requires
        short_id_cut_ok(value@),
    ensures
        r@ == short_id_spec(value@),
{
    let t = trim_vec(&to_chars(value));
    let p = trim_to_char_boundary(&t, 18);
    proof {
        lemma_prefix_within_whole(t@, 18);
    }
    if p.len() == t.len() {
        from_chars(&t)
    } else {
        let mut out = p;
        append_str(&mut out, "...");
        from_chars(&out)
    }
}

// ─── the snapshot ──────────────────────────────────────────────────────

/// How a status is coloured.
#[derive(Debug, Clone, Copy, PartialEq, Eq, Structural)]
pub enum StateTone {
    Healthy,
    Warn,
    Error,
    Muted,
}

#[derive(Debug)]
pub struct FeishuWsStatus {
    pub connecting: bool,
    pub connected: bool,
    pub last_error: Option<String>,
}

#[derive(Debug)]
pub struct ServerStatus {
    pub bind: String,
    pub state_path: String,
    pub feishu_ws: FeishuWsStatus,
}

#[derive(Debug)]
pub struct DashboardConfig {
    pub feishu_app_id: String,
    pub allowed_open_ids: Vec<String>,
    pub bridge_enabled: bool,
}

#[derive(Debug)]
pub struct BackendStatus {
    pub enabled: bool,
    pub feishu_configured: bool,
}

#[derive(Debug)]
pub struct RemoteStatus {
    pub connected: bool,
    pub initialized: bool,
    pub server_name: Option<String>,
    pub current_thread_id: Option<String>,
    pub last_error: Option<String>,
}

#[derive(Debug)]
pub struct CodexAppStatus {
    pub codex_home: String,
    pub configured: bool,
    pub config_ok: bool,
    pub auth_ok: bool,
    pub config_error: Option<String>,
    pub auth_error: Option<String>,
    pub gui_api_base_value: Option<String>,
    pub gui_api_base_error: Option<String>,
}

/// What the local service reported, or that it could not be reached.
#[derive(Debug)]
pub struct DashboardSnapshot {
    pub service_online: bool,
    pub status: Option<ServerStatus>,
    pub config: Option<DashboardConfig>,
    pub backend: Option<BackendStatus>,
    pub remote: Option<RemoteStatus>,
    pub codex_app: Option<CodexAppStatus>,
    pub error: Option<String>,
}

/// A status panel: its state word, its detail and its colour.
#[derive(Debug)]
pub struct PanelState {
    pub state: String,
    pub detail: String,
    pub tone: StateTone,
}

impl View for PanelState {
    type V = (Seq<char>, Seq<char>, StateTone);

    open spec fn view(&self) -> (Seq<char>, Seq<char>, StateTone) {
        (self.state@, self.detail@, self.tone)
    }
}

/// Everything the dashboard sets for one snapshot. A `None` leaves the
/// widget as it was.
#[derive(Debug)]
pub struct DashboardStates {
    pub service: Option<PanelState>,
    pub feishu: PanelState,
    pub codex: PanelState,
    pub feishu_state: String,
    pub feishu_detail: String,
    pub feishu_meta: String,
    pub codex_config_state: String,
    pub service_status_text: Option<String>,
    pub feishu_status_text: String,
    pub codex_status_text: String,
    pub actions_enabled: bool,
    pub start_daemon_enabled: bool,
    pub stop_bridge_enabled: bool,
}

// ─── what is shown ─────────────────────────────────────────────────────

/// The backend's word on whether a Feishu bot is set up, else the saved
/// configuration's.
pub open spec fn feishu_configured_spec(s: DashboardSnapshot) -> bool {
    match s.backend {
        Some(b) => b.feishu_configured,
        None => match s.config {
            Some(c) => c.feishu_app_id@.len() > 0,
            None => false,
        },
    }
}

pub open spec fn bridge_enabled_spec(s: DashboardSnapshot) -> bool {
    match s.backend {
        Some(b) => b.enabled,
        None => match s.config {
            Some(c) => c.bridge_enabled,
            None => false,
        },
    }
}

pub open spec fn feishu_panel_spec(s: DashboardSnapshot) -> (Seq<char>, Seq<char>, StateTone) {
    if !feishu_configured_spec(s) {
        ("未接入"@, "点击“更换机器人”进入扫码接入流程。"@, StateTone::Warn)
    } else if !bridge_enabled_spec(s) {
        ("已暂停"@, "机器人已配置，但飞书接入当前关闭。"@, StateTone::Muted)
    } else if s.status matches Some(st) && st.feishu_ws.connected {
        ("已接入"@, "飞书长连接正常。"@, StateTone::Healthy)
    } else if s.status matches Some(st) && st.feishu_ws.connecting {
        ("连接中"@, "正在连接飞书长连接。"@, StateTone::Warn)
    } else {
        ("等待连接"@, "机器人已配置，等待飞书连接建立。"@, StateTone::Warn)
    }
}

pub open spec fn app_id_lines(c: DashboardConfig) -> Seq<char> {
    "App ID: "@ + short_id_spec(c.feishu_app_id@) + "\n允许用户: "@ + decimal(c.allowed_open_ids@.len())
}

pub open spec fn feishu_meta_spec(s: DashboardSnapshot) -> Seq<char> {
    let err = match s.status {
        Some(st) => opt_view(st.feishu_ws.last_error),
        None => None,
    };
    match s.config {
        Some(c) => if err matches Some(e) && e.len() > 0 {
            app_id_lines(c) + "\n最近错误: "@ + err->0
        } else if c.feishu_app_id@.len() > 0 {
            app_id_lines(c)
        } else {
            "未保存飞书机器人凭据。"@
        },
        None => "未保存飞书机器人凭据。"@,
    }
}

pub open spec fn codex_remote_detail_spec(r: RemoteStatus) -> Seq<char> {
    match r.current_thread_id {
        Some(t) => "当前 thread: "@ + short_id_spec(t@),
        None => match r.server_name {
            Some(n) => "设备: "@ + n@,
            None => match r.last_error {
                Some(e) => "最近错误: "@ + e@,
                None => "Codex App remote-control 已连接。"@,
            },
        },
    }
}

pub open spec fn codex_connected_spec(s: DashboardSnapshot) -> bool {
    s.remote matches Some(r) && r.connected && r.initialized
}

/// The Codex panel and its status bar word.
pub open spec fn codex_panel_spec(s: DashboardSnapshot) -> ((Seq<char>, Seq<char>, StateTone), Seq<char>) {
    if codex_connected_spec(s) {
        (("已连接"@, codex_remote_detail_spec(s.remote->0), StateTone::Healthy), "Codex App：已连接"@)
    } else if s.codex_app matches Some(a) && a.configured {
        (
            ("等待连接"@, "配置已注入，打开 Codex App 的远程控制后会连接到本机服务。"@, StateTone::Warn),
            "Codex App：等待连接"@,
        )
    } else {
        (
            ("未注入"@, "需要先写入 chatgpt_base_url 和本地 ChatgptAuthTokens。"@, StateTone::Warn),
            "Codex App：未注入"@,
        )
    }
}

/// Why the Codex App is not set up, one reason per line.
pub open spec fn codex_app_problems(a: CodexAppStatus) -> Seq<Seq<char>> {
    (if !a.config_ok {
        seq![or_default(opt_view(a.config_error), "config.toml 未匹配本地 backend"@)]
    } else {
        Seq::empty()
    }) + (if !a.auth_ok {
        seq![or_default(opt_view(a.auth_error), "auth.json 未使用 ChatgptAuthTokens"@)]
    } else {
        Seq::empty()
    }) + match a.gui_api_base_error {
        Some(e) => seq!["检测遗留 CODEX_API_BASE_URL 失败: "@ + e@],
        None => Seq::empty(),
    }
}

pub open spec fn codex_app_detail_spec(s: DashboardSnapshot) -> Seq<char> {
    match s.codex_app {
        None => "无法读取 ~/.codex 配置状态。"@,
        Some(a) => if a.configured {
            "已注入到 "@ + a.codex_home@ + match a.gui_api_base_value {
                Some(v) => "\n检测到遗留 CODEX_API_BASE_URL: "@ + v@,
                None => Seq::empty(),
            }
        } else if codex_app_problems(a).len() == 0 {
            "尚未注入 Codex App 配置。"@
        } else {
            join_with(codex_app_problems(a), "\n"@)
        },
    }
}

/// The ids the dashboard shortens can be cut where it cuts them.
pub open spec fn dashboard_ids_ok(s: DashboardSnapshot) -> bool {
    &&& s.service_online && s.config is Some ==> short_id_cut_ok(s.config->0.feishu_app_id@)
    &&& s.service_online && codex_connected_spec(s) && s.remote->0.current_thread_id is Some
        ==> short_id_cut_ok(s.remote->0.current_thread_id->0@)
}

/// What the dashboard shows for a snapshot.
pub open spec fn shows(s: DashboardSnapshot, r: DashboardStates) -> bool {
    if !s.service_online {
        &&& r.service matches Some(p) && p@ == (
            "未运行"@,
            or_default(opt_view(s.error), "无法连接本地服务"@),
            StateTone::Error,
        )
        &&& r.feishu@ == ("不可用"@, "本地服务未运行"@, StateTone::Muted)
        &&& r.codex@ == ("不可用"@, "本地服务未运行"@, StateTone::Muted)
        &&& r.feishu_state@ == "本地服务未运行"@
        &&& r.feishu_detail@ == "请先启动 codex-remote 后端。"@
        &&& r.feishu_meta@ == Seq::<char>::empty()
        &&& r.codex_config_state@ == "无法读取 Codex App 配置状态。"@
        &&& opt_view(r.service_status_text) == Some("本地服务：离线"@)
        &&& r.feishu_status_text@ == "飞书：不可用"@
        &&& r.codex_status_text@ == "Codex App：不可用"@
        &&& !r.actions_enabled
        &&& r.start_daemon_enabled
        &&& !r.stop_bridge_enabled
    } else {
        let (fs, fd, ft) = feishu_panel_spec(s);
        &&& match s.status {
            Some(st) => {
                &&& r.service matches Some(p) && p@ == (
                    "运行中"@,
                    "监听 "@ + st.bind@ + "，状态文件 "@ + st.state_path@,
                    StateTone::Healthy,
                )
                &&& opt_view(r.service_status_text) == Some("本地服务："@ + st.bind@)
            },
            None => r.service is None && r.service_status_text is None,
        }
        &&& r.feishu@ == (fs, fd, ft)
        &&& r.feishu_state@ == fs
        &&& r.feishu_detail@ == fd
        &&& r.feishu_status_text@ == "飞书："@ + fs
        &&& r.feishu_meta@ == feishu_meta_spec(s)
        &&& r.codex@ == codex_panel_spec(s).0
        &&& r.codex_status_text@ == codex_panel_spec(s).1
        &&& r.codex_config_state@ == codex_app_detail_spec(s)
        &&& r.actions_enabled
        &&& !r.start_daemon_enabled
        &&& r.stop_bridge_enabled == (feishu_configured_spec(s) && bridge_enabled_spec(s))
    }
}

// ─── computing it ──────────────────────────────────────────────────────

fn panel(state: &str, detail: &Vec<char>, tone: StateTone) -> (r: PanelState)
    ensures
        r@ == (state@, detail@, tone),
{
    PanelState { state: String::from_str(state), detail: from_chars(detail), tone }
}

fn text(s: &str) -> (r: Vec<char>)
    ensures
        r@ == s@,
{
    to_chars(s)
}

fn feishu_configured(s: &DashboardSnapshot) -> (r: bool)
    ensures
        r == feishu_configured_spec(*s),
{
    match &s.backend {
        Some(b) => b.feishu_configured,
        None => match &s.config {
            Some(c) => c.feishu_app_id.as_str().unicode_len() > 0,
            None => false,
        },
    }
}

fn bridge_enabled(s: &DashboardSnapshot) -> (r: bool)
    ensures
        r == bridge_enabled_spec(*s),
{
    match &s.backend {
        Some(b) => b.enabled,
        None => match &s.config {
            Some(c) => c.bridge_enabled,
            None => false,
        },
    }
}

fn feishu_panel(s: &DashboardSnapshot) -> (r: (&'static str, &'static str, StateTone))
    ensures
        (r.0@, r.1@, r.2) == feishu_panel_spec(*s),
{
    let ws_connected = match &s.status {
        Some(st) => st.feishu_ws.connected,
        None => false,
    };
    let ws_connecting = match &s.status {
        Some(st) => st.feishu_ws.connecting,
        None => false,
    };
    if !feishu_configured(s) {
        ("未接入", "点击“更换机器人”进入扫码接入流程。", StateTone::Warn)
    } else if !bridge_enabled(s) {
        ("已暂停", "机器人已配置，但飞书接入当前关闭。", StateTone::Muted)
    } else if ws_connected {
        ("已接入", "飞书长连接正常。", StateTone::Healthy)
    } else if ws_connecting {
        ("连接中", "正在连接飞书长连接。", StateTone::Warn)
    } else {
        ("等待连接", "机器人已配置，等待飞书连接建立。", StateTone::Warn)
    }
}

fn app_id_lines_exec(c: &DashboardConfig) -> (r: Vec<char>)
    requires
        short_id_cut_ok(c.feishu_app_id@),
    ensures
        r@ == app_id_lines(*c),
{
    let mut out = text("App ID: ");
    append_str(&mut out, short_id(c.feishu_app_id.as_str()).as_str());
    append_str(&mut out, "\n允许用户: ");
    append_vec(&mut out, &decimal_exec(c.allowed_open_ids.len()));
    out
}

fn feishu_meta(s: &DashboardSnapshot) -> (r: Vec<char>)
    requires
        s.config is Some ==> short_id_cut_ok(s.config->0.feishu_app_id@),
    ensures
        r@ == feishu_meta_spec(*s),
{
    let err: Option<&String> = match &s.status {
        Some(st) => match &st.feishu_ws.last_error {
            Some(e) => Some(e),
            None => None,
        },
        None => None,
    };
    match &s.config {
        Some(c) => {
            let has_err = match err {
                Some(e) => e.as_str().unicode_len() > 0,
                None => false,
            };
            if has_err {
                let mut out = app_id_lines_exec(c);
                append_str(&mut out, "\n最近错误: ");
                append_str(&mut out, err.unwrap().as_str());
                out
            } else if c.feishu_app_id.as_str().unicode_len() > 0 {
                app_id_lines_exec(c)
            } else {
                text("未保存飞书机器人凭据。")
            }
        },
        None => text("未保存飞书机器人凭据。"),
    }
}

fn codex_remote_detail(r: &RemoteStatus) -> (d: Vec<char>)
    requires
        r.current_thread_id is Some ==> short_id_cut_ok(r.current_thread_id->0@),
    ensures
        d@ == codex_remote_detail_spec(*r),
{
    match &r.current_thread_id {
        Some(t) => {
            let mut out = text("当前 thread: ");
            append_str(&mut out, short_id(t.as_str()).as_str());
            out
        },
        None => match &r.server_name {
            Some(n) => {
                let mut out = text("设备: ");
                append_str(&mut out, n.as_str());
                out
            },
            None => match &r.last_error {
                Some(e) => {
                    let mut out = text("最近错误: ");
                    append_str(&mut out, e.as_str());
                    out
                },
                None => text("Codex App remote-control 已连接。"),
            },
        },
    }
}

fn opt_or(o: &Option<String>, d: &str) -> (r: Vec<char>)
    ensures
        r@ == or_default(opt_view(*o), d@),
{
    match o {
        Some(v) => to_chars(v.as_str()),
        None => to_chars(d),
    }
}

fn codex_app_detail(s: &DashboardSnapshot) -> (r: Vec<char>)
    ensures
        r@ == codex_app_detail_spec(*s),
{
    let a = match &s.codex_app {
        Some(a) => a,
        None => return text("无法读取 ~/.codex 配置状态。"),
    };
    if a.configured {
        let mut out = text("已注入到 ");
        append_str(&mut out, a.codex_home.as_str());
        match &a.gui_api_base_value {
            Some(v) => {
                append_str(&mut out, "\n检测到遗留 CODEX_API_BASE_URL: ");
                append_str(&mut out, v.as_str());
            },
            None => {},
        }
        proof {
            assert(out@ =~= codex_app_detail_spec(*s));
        }
        return out;
    }
    let mut parts: Vec<Vec<char>> = Vec::new();
    let ghost p1: Seq<Seq<char>> = if !a.config_ok {
        seq![or_default(opt_view(a.config_error), "config.toml 未匹配本地 backend"@)]
    } else {
        Seq::empty()
    };
    let ghost p2: Seq<Seq<char>> = if !a.auth_ok {
        seq![or_default(opt_view(a.auth_error), "auth.json 未使用 ChatgptAuthTokens"@)]
    } else {
        Seq::empty()
    };
    if !a.config_ok {
        parts.push(opt_or(&a.config_error, "config.toml 未匹配本地 backend"));
    }
    assert(lines_view(parts@) =~= p1);
    if !a.auth_ok {
        parts.push(opt_or(&a.auth_error, "auth.json 未使用 ChatgptAuthTokens"));
    }
    assert(lines_view(parts@) =~= p1 + p2);
    match &a.gui_api_base_error {
        Some(e) => {
            let mut line = text("检测遗留 CODEX_API_BASE_URL 失败: ");
            append_str(&mut line, e.as_str());
            parts.push(line);
        },
        None => {},
    }
    assert(lines_view(parts@) =~= codex_app_problems(*a));
    if parts.len() == 0 {
        text("尚未注入 Codex App 配置。")
    } else {
        join_vecs(&parts, "\n")
    }
}

/// `update_dashboard`: the states shown for a snapshot.
pub fn dashboard_states(s: &DashboardSnapshot) -> (r: DashboardStates)
    requires
        dashboard_ids_ok(*s),
    ensures
        shows(*s, r),
{
    if !s.service_online {
        let detail = opt_or(&s.error, "无法连接本地服务");
        let offline = text("本地服务未运行");
        return DashboardStates {
            service: Some(panel("未运行", &detail, StateTone::Error)),
            feishu: panel("不可用", &offline, StateTone::Muted),
            codex: panel("不可用", &offline, StateTone::Muted),
            feishu_state: String::from_str("本地服务未运行"),
            feishu_detail: String::from_str("请先启动 codex-remote 后端。"),
            feishu_meta: String::new(),
            codex_config_state: String::from_str("无法读取 Codex App 配置状态。"),
            service_status_text: Some(String::from_str("本地服务：离线")),
            feishu_status_text: String::from_str("飞书：不可用"),
            codex_status_text: String::from_str("Codex App：不可用"),
            actions_enabled: false,
            start_daemon_enabled: true,
            stop_bridge_enabled: false,
        };
    }
    let (service, service_status_text) = match &s.status {
        Some(st) => {
            let mut d = text("监听 ");
            append_str(&mut d, st.bind.as_str());
            append_str(&mut d, "，状态文件 ");
            append_str(&mut d, st.state_path.as_str());
            let mut bar = text("本地服务：");
            append_str(&mut bar, st.bind.as_str());
            (Some(panel("运行中", &d, StateTone::Healthy)), Some(from_chars(&bar)))
        },
        None => (None, None),
    };
    let (fs, fd, ft) = feishu_panel(s);
    let mut feishu_bar = text("飞书：");
    append_str(&mut feishu_bar, fs);
    let connected = match &s.remote {
        Some(r) => r.connected && r.initialized,
        None => false,
    };
    let configured = match &s.codex_app {
        Some(a) => a.configured,
        None => false,
    };
    let (codex, codex_bar) = if connected {
        let detail = codex_remote_detail(s.remote.as_ref().unwrap());
        (panel("已连接", &detail, StateTone::Healthy), String::from_str("Codex App：已连接"))
    } else if configured {
        (
            panel("等待连接", &text("配置已注入，打开 Codex App 的远程控制后会连接到本机服务。"), StateTone::Warn),
            String::from_str("Codex App：等待连接"),
        )
    } else {
        (
            panel("未注入", &text("需要先写入 chatgpt_base_url 和本地 ChatgptAuthTokens。"), StateTone::Warn),
            String::from_str("Codex App：未注入"),
        )
    };
    let meta = feishu_meta(s);
    let detail = codex_app_detail(s);
    DashboardStates {
        service,
        feishu: panel(fs, &text(fd), ft),
        codex,
        feishu_state: String::from_str(fs),
        feishu_detail: String::from_str(fd),
        feishu_meta: from_chars(&meta),
        codex_config_state: from_chars(&detail),
        service_status_text,
        feishu_status_text: from_chars(&feishu_bar),
        codex_status_text: codex_bar,
        actions_enabled: true,
        start_daemon_enabled: false,
        stop_bridge_enabled: feishu_configured(s) && bridge_enabled(s),
    }
}

} // verus!
