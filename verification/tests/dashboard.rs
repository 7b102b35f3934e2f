use codexhub::dashboard::{
    dashboard_states, short_id, BackendStatus, CodexAppStatus, DashboardConfig, DashboardSnapshot, FeishuWsStatus,
    RemoteStatus, ServerStatus, StateTone,
};

fn offline() -> DashboardSnapshot {
    DashboardSnapshot {
        service_online: false,
        status: None,
        config: None,
        backend: None,
        remote: None,
        codex_app: None,
        error: None,
    }
}

#[test]
fn short_ids_are_cut_after_eighteen_bytes() {
    assert_eq!(short_id("  abc  "), "abc");
    assert_eq!(short_id("0123456789abcdefghij"), "0123456789abcdefgh...");
    assert_eq!(short_id("0123456789abcdefgh"), "0123456789abcdefgh");
}

#[test]
fn offline_service_disables_actions() {
    let states = dashboard_states(&offline());
    let service = states.service.expect("service panel");
    assert_eq!(service.state, "未运行");
    assert_eq!(service.detail, "无法连接本地服务");
    assert_eq!(service.tone, StateTone::Error);
    assert_eq!(states.feishu.tone, StateTone::Muted);
    assert_eq!(states.service_status_text.as_deref(), Some("本地服务：离线"));
    assert!(!states.actions_enabled);
    assert!(states.start_daemon_enabled);
    let mut with_error = offline();
    with_error.error = Some("connection refused".to_string());
    assert_eq!(dashboard_states(&with_error).service.unwrap().detail, "connection refused");
}

#[test]
fn online_service_shows_feishu_and_codex_states() {
    let snapshot = DashboardSnapshot {
        service_online: true,
        status: Some(ServerStatus {
            bind: "127.0.0.1:8787".to_string(),
            state_path: "/tmp/state.json".to_string(),
            feishu_ws: FeishuWsStatus { connecting: false, connected: true, last_error: Some("timeout".to_string()) },
        }),
        config: Some(DashboardConfig {
            feishu_app_id: "cli_0123456789abcdefXYZ".to_string(),
            allowed_open_ids: vec!["ou_1".to_string(), "ou_2".to_string()],
            bridge_enabled: false,
        }),
        backend: Some(BackendStatus { enabled: true, feishu_configured: true }),
        remote: Some(RemoteStatus {
            connected: true,
            initialized: true,
            server_name: Some("mac".to_string()),
            current_thread_id: None,
            last_error: None,
        }),
        codex_app: Some(CodexAppStatus {
            codex_home: "/home/u/.codex".to_string(),
            configured: false,
            config_ok: false,
            auth_ok: false,
            config_error: None,
            auth_error: Some("no tokens".to_string()),
            gui_api_base_value: None,
            gui_api_base_error: None,
        }),
        error: None,
    };
    let states = dashboard_states(&snapshot);
    let service = states.service.expect("service panel");
    assert_eq!(service.detail, "监听 127.0.0.1:8787，状态文件 /tmp/state.json");
    assert_eq!(states.service_status_text.as_deref(), Some("本地服务：127.0.0.1:8787"));
    assert_eq!(states.feishu.state, "已接入");
    assert_eq!(states.feishu.tone, StateTone::Healthy);
    assert_eq!(states.feishu_status_text, "飞书：已接入");
    assert_eq!(states.feishu_meta, "App ID: cli_0123456789abcd...\n允许用户: 2\n最近错误: timeout");
    assert_eq!(states.codex.state, "已连接");
    assert_eq!(states.codex.detail, "设备: mac");
    assert_eq!(states.codex_config_state, "config.toml 未匹配本地 backend\nno tokens");
    assert!(states.actions_enabled);
    assert!(!states.start_daemon_enabled);
    assert!(states.stop_bridge_enabled);
}
