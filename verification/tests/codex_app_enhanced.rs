use codexhub::codex_app_enhanced::{
    codex_app_activation_arguments, injected_status_is_ready, normalized_models, supported_feature_gates,
    wide_null_terminated, InjectedStatus, CODEX_APP_USER_MODEL_ID, DEFAULT_CDP_PORT,
    SUPPORTED_FEATURE_GATE_COUNT,
};
use codexhub::codex_app_enhanced::{launch_step, LaunchAction, LaunchEvent, LaunchState};

#[test]
fn normalized_models_trims_and_deduplicates() {
    assert_eq!(
        normalized_models(vec![" grok-4.5 ".into(), "".into(), "grok-4.5".into()]),
        vec!["grok-4.5"]
    );
}

#[test]
fn windows_launcher_builds_native_activation_inputs() {
    assert_eq!(CODEX_APP_USER_MODEL_ID, "OpenAI.Codex_2p2nqsd0c76g0!App");
    assert_eq!(
        codex_app_activation_arguments(9335),
        "--remote-debugging-address=127.0.0.1 --remote-debugging-port=9335"
    );
    let encoded = wide_null_terminated("Codex");
    assert_eq!(encoded.last(), Some(&0));
    assert_eq!(
        String::from_utf16(&encoded[..encoded.len() - 1]).unwrap(),
        "Codex"
    );
}

fn status(models: Vec<String>) -> InjectedStatus {
    InjectedStatus {
        ready: true,
        available_models: models,
        use_hidden_models: false,
        key_gates_enabled: supported_feature_gates().len(),
        i18n_enabled: true,
        fast_initialize_applied: false,
        fast_initialize_source: None,
        bootstrap_intercepted: false,
        bootstrap_source: None,
        routes_mounted: false,
        renderer_ready_ms: None,
    }
}

#[test]
fn enhanced_config_ready_does_not_require_renderer_routes_or_bootstrap_interception() {
    let expected_models = vec!["gpt-5.6-sol".to_string()];
    let mut status = status(expected_models.clone());

    assert!(injected_status_is_ready(&status, &expected_models));
    status.i18n_enabled = false;
    assert!(!injected_status_is_ready(&status, &expected_models));
}

#[test]
fn injected_status_needs_every_gate_and_exact_models() {
    let expected_models = vec!["a".to_string(), "b".to_string()];
    let mut s = status(expected_models.clone());
    assert!(injected_status_is_ready(&s, &expected_models));
    s.key_gates_enabled = SUPPORTED_FEATURE_GATE_COUNT - 1;
    assert!(!injected_status_is_ready(&s, &expected_models));
    let reordered = status(vec!["b".to_string(), "a".to_string()]);
    assert!(!injected_status_is_ready(&reordered, &expected_models));
    let mut hidden = status(expected_models.clone());
    hidden.use_hidden_models = true;
    assert!(!injected_status_is_ready(&hidden, &expected_models));
    let mut not_ready = status(expected_models.clone());
    not_ready.ready = false;
    assert!(!injected_status_is_ready(&not_ready, &expected_models));
}

#[test]
fn normalized_models_keeps_first_occurrence_order() {
    assert_eq!(
        normalized_models(vec!["b".into(), "  ".into(), "a".into(), " b".into(), "a\t".into(), "c".into()]),
        vec!["b", "a", "c"]
    );
    assert!(normalized_models(vec![]).is_empty());
}

#[test]
fn activation_arguments_for_other_ports() {
    assert_eq!(
        codex_app_activation_arguments(0),
        "--remote-debugging-address=127.0.0.1 --remote-debugging-port=0"
    );
    assert_eq!(
        codex_app_activation_arguments(DEFAULT_CDP_PORT),
        "--remote-debugging-address=127.0.0.1 --remote-debugging-port=9335"
    );
    assert_eq!(
        codex_app_activation_arguments(65535),
        "--remote-debugging-address=127.0.0.1 --remote-debugging-port=65535"
    );
}

#[test]
fn wide_encoding_uses_surrogate_pairs() {
    assert_eq!(wide_null_terminated(""), vec![0u16]);
    assert_eq!(wide_null_terminated("é😀"), vec![0x00E9u16, 0xD83D, 0xDE00, 0]);
}

fn strings(v: &[&str]) -> Vec<String> {
    v.iter().map(|s| s.to_string()).collect()
}

#[test]
fn launch_with_no_models_fails_first() {
    let (state, action) = launch_step(LaunchState::Idle, LaunchEvent::Begin(strings(&[" ", ""])));
    assert!(matches!(state, LaunchState::Failed));
    match action {
        LaunchAction::Fail(f) => {
            assert_eq!(f.message, "Codex 可见模型列表为空，请先在 Codex 接入页面保存模型");
            assert!(f.cause.is_none());
        }
        other => panic!("unexpected {other:?}"),
    }
}

#[test]
fn launch_of_a_stopped_app_configures_then_launches() {
    let (state, action) = launch_step(LaunchState::Idle, LaunchEvent::Begin(strings(&[" gpt-5 ", "gpt-5", "o3"])));
    match &action {
        LaunchAction::PrepareSnapshot { log } => {
            assert_eq!(log, "[codex_app_enhanced] event=launch_start model_count=2")
        }
        other => panic!("unexpected {other:?}"),
    }
    match &state {
        LaunchState::Preparing { models } => assert_eq!(models, &strings(&["gpt-5", "o3"])),
        other => panic!("unexpected {other:?}"),
    }
    let (state, action) = launch_step(state, LaunchEvent::SnapshotPrepared(Ok(())));
    assert!(matches!(action, LaunchAction::CheckRunning));
    let (state, action) = launch_step(state, LaunchEvent::AppRunning(Ok(false)));
    assert!(matches!(action, LaunchAction::ConfigureBase));
    let (state, action) = launch_step(state, LaunchEvent::BaseConfigured(Ok(())));
    assert!(matches!(action, LaunchAction::LaunchApp));
    let (state, action) = launch_step(state, LaunchEvent::TargetReady(Ok("page-1".to_string())));
    assert!(matches!(action, LaunchAction::Inject));
    match state {
        LaunchState::Ready { models, launched, target_id } => {
            assert_eq!(models, strings(&["gpt-5", "o3"]));
            assert!(launched);
            assert_eq!(target_id, "page-1");
        }
        other => panic!("unexpected {other:?}"),
    }
}

#[test]
fn launch_against_a_running_app_needs_its_target() {
    let (state, _) = launch_step(LaunchState::Idle, LaunchEvent::Begin(strings(&["m"])));
    let (state, _) = launch_step(state, LaunchEvent::SnapshotPrepared(Ok(())));
    let (state, action) = launch_step(state, LaunchEvent::AppRunning(Ok(true)));
    assert!(matches!(action, LaunchAction::FindTarget));
    let (refused, action) = launch_step(
        LaunchState::Finding { models: strings(&["m"]) },
        LaunchEvent::TargetFound(Ok(None)),
    );
    assert!(matches!(refused, LaunchState::Failed));
    match action {
        LaunchAction::Fail(f) => {
            assert_eq!(f.message, "Codex App 正在运行。请先完全退出，再使用增强模式启动 Codex")
        }
        other => panic!("unexpected {other:?}"),
    }
    let (state, action) = launch_step(state, LaunchEvent::TargetFound(Ok(Some("t".to_string()))));
    assert!(matches!(action, LaunchAction::ConfigureBase));
    let (state, action) = launch_step(state, LaunchEvent::BaseConfigured(Ok(())));
    assert!(matches!(action, LaunchAction::Inject));
    assert!(matches!(state, LaunchState::Ready { launched: false, .. }));
}

#[test]
fn launch_step_errors_carry_their_context() {
    let (_, action) = launch_step(
        LaunchState::Preparing { models: strings(&["m"]) },
        LaunchEvent::SnapshotPrepared(Err("disk full".to_string())),
    );
    match action {
        LaunchAction::Fail(f) => {
            assert_eq!(f.message, "准备 Codex 配置恢复快照失败");
            assert_eq!(f.cause.as_deref(), Some("disk full"));
        }
        other => panic!("unexpected {other:?}"),
    }
    let (_, action) = launch_step(
        LaunchState::Configuring { models: strings(&["m"]), target: None },
        LaunchEvent::BaseConfigured(Err("denied".to_string())),
    );
    match action {
        LaunchAction::Fail(f) => assert_eq!(f.message, "配置 CODEX_API_BASE_URL 失败: denied"),
        other => panic!("unexpected {other:?}"),
    }
    let (state, action) = launch_step(LaunchState::Idle, LaunchEvent::AppRunning(Ok(true)));
    assert!(matches!(state, LaunchState::Idle));
    assert!(matches!(action, LaunchAction::Ignore));
}
