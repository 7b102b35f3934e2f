use codexhub::bridge_plan::{
    bridge_start_plan, bridge_started_line, listener_step, ListenerAction, ListenerEvent, ListenerKind,
    LISTENER_RETRY_SECS,
};
use codexhub::config::{AppConfig, TelegramConfig, WecomConfig};

fn line_of(action: ListenerAction) -> Option<(String, String, String)> {
    match action {
        ListenerAction::Run(Some(l)) | ListenerAction::Retry(Some(l)) => Some((l.level, l.kind, l.message)),
        _ => None,
    }
}

#[test]
fn bridge_without_accounts_refuses_to_start() {
    let config = AppConfig::default();
    let err = bridge_start_plan(&config).unwrap_err();
    assert_eq!(err.level, "error");
    assert_eq!(err.kind, "bridge_config_invalid");
    assert_eq!(err.message, "no enabled IM account is configured");
}

#[test]
fn bridge_starts_only_active_accounts() {
    let mut config = AppConfig::default();
    config.telegram_accounts.push(TelegramConfig {
        account_id: "tg_1".to_string(),
        bot_token: "token".to_string(),
        ..TelegramConfig::default()
    });
    config.telegram_accounts.push(TelegramConfig {
        account_id: "tg_2".to_string(),
        bot_token: "token".to_string(),
        enabled: false,
        ..TelegramConfig::default()
    });
    config.telegram_accounts.push(TelegramConfig {
        account_id: "tg_3".to_string(),
        bot_token: "   ".to_string(),
        ..TelegramConfig::default()
    });
    let plan = bridge_start_plan(&config).unwrap();
    assert_eq!(plan.telegram.len(), 1);
    assert_eq!(plan.telegram[0].account_id, "tg_1");
    assert!(plan.feishu.is_empty());
    assert!(plan.wechat.is_empty());
    assert!(plan.wecom.is_empty());
}

#[test]
fn legacy_wecom_account_starts_a_listener() {
    let mut config = AppConfig::default();
    config.wecom = WecomConfig { bot_id: "bot-1".to_string(), secret: "secret-1".to_string(), ..WecomConfig::default() };
    let plan = bridge_start_plan(&config).unwrap();
    assert_eq!(plan.wecom.len(), 1);
    assert_eq!(plan.wecom[0].bot_id, "bot-1");
}

#[test]
fn listener_of_a_replaced_bridge_stops() {
    let action = listener_step(false, ListenerKind::TelegramPolling, "a", &ListenerEvent::Starting);
    assert!(matches!(action, ListenerAction::Stop));
}

#[test]
fn listener_start_lines() {
    let feishu = listener_step(true, ListenerKind::FeishuWs, "a", &ListenerEvent::Starting);
    assert_eq!(
        line_of(feishu),
        Some(("info".to_string(), "feishu_ws_connecting".to_string(), "account=a".to_string()))
    );
    let wechat = listener_step(true, ListenerKind::WechatPolling, "w", &ListenerEvent::Starting);
    assert_eq!(
        line_of(wechat),
        Some(("info".to_string(), "wechat_polling_starting".to_string(), "account=w".to_string()))
    );
    let wecom = listener_step(true, ListenerKind::WecomWs, "c", &ListenerEvent::Starting);
    assert!(matches!(wecom, ListenerAction::Run(None)));
}

#[test]
fn ended_listener_is_reported_and_retried() {
    let stopped = listener_step(true, ListenerKind::TelegramPolling, "a", &ListenerEvent::Ended(Ok(())));
    assert!(matches!(stopped, ListenerAction::Retry(_)));
    assert_eq!(
        line_of(stopped),
        Some(("warn".to_string(), "telegram_polling_stopped".to_string(), "account=a polling stopped".to_string()))
    );
    let ws = listener_step(false, ListenerKind::FeishuWs, "f", &ListenerEvent::Ended(Ok(())));
    assert_eq!(
        line_of(ws),
        Some(("warn".to_string(), "feishu_ws_stopped".to_string(), "account=f websocket stopped".to_string()))
    );
    let failed = listener_step(true, ListenerKind::WecomWs, "c", &ListenerEvent::Ended(Err("boom".to_string())));
    assert_eq!(
        line_of(failed),
        Some(("error".to_string(), "wecom_ws_failed".to_string(), "account=c boom".to_string()))
    );
    let quiet = listener_step(true, ListenerKind::WecomWs, "c", &ListenerEvent::Ended(Ok(())));
    assert!(matches!(quiet, ListenerAction::Retry(None)));
    assert_eq!(LISTENER_RETRY_SECS, 5);
}

#[test]
fn bridge_started_line_counts_accounts() {
    let line = bridge_started_line(1, 2, 0, 3);
    assert_eq!(line.level, "info");
    assert_eq!(line.kind, "bridge_started");
    assert_eq!(line.message, "bridge running feishu=1 telegram=2 wechat=0 wecom=3");
}
