use codexhub::config::{
    AppConfig, BindAddress, FeishuConfig, LocalConnectionMode, TelegramChatAllowResult, TelegramConfig, WechatConfig, WecomConfig,
};

#[test]
fn telegram_empty_allowlist_binds_first_private_chat() {
    let mut config = AppConfig::default();
    config.telegram_accounts.push(TelegramConfig {
        account_id: "tg_1".to_string(),
        bot_token: "token".to_string(),
        ..TelegramConfig::default()
    });

    assert_eq!(
        config.ensure_telegram_allowed_chat_id("tg_1", "123"),
        TelegramChatAllowResult::Bound
    );
    assert_eq!(
        config.telegram_accounts[0].allowed_chat_ids,
        vec!["123".to_string()]
    );
    assert_eq!(
        config.ensure_telegram_allowed_chat_id("tg_1", "123"),
        TelegramChatAllowResult::Allowed
    );
    assert_eq!(
        config.ensure_telegram_allowed_chat_id("tg_1", "456"),
        TelegramChatAllowResult::Denied
    );
}

#[test]
fn telegram_legacy_default_account_can_bind_first_chat() {
    let mut config = AppConfig::default();
    config.telegram.bot_token = "token".to_string();

    assert_eq!(
        config.ensure_telegram_allowed_chat_id("telegram", "123"),
        TelegramChatAllowResult::Bound
    );
    assert_eq!(config.telegram.allowed_chat_ids, vec!["123".to_string()]);
    assert_eq!(
        config.telegram_accounts[0].allowed_chat_ids,
        vec!["123".to_string()]
    );
}

#[test]
fn wecom_legacy_account_migrates_and_is_resolved() {
    let mut config = AppConfig::default();
    config.wecom.bot_id = "bot-1".to_string();
    config.wecom.secret = "secret-1".to_string();
    assert!(config.migrate_legacy_im_accounts());
    let account = config.wecom_account("wecom").expect("wecom account");
    assert_eq!(account.bot_id, "bot-1");
    assert!(account.is_active());
}

#[test]
fn blank_ids_are_not_found() {
    let mut config = AppConfig::default();
    assert_eq!(
        config.ensure_telegram_allowed_chat_id("  ", "1"),
        TelegramChatAllowResult::AccountNotFound
    );
    assert_eq!(
        config.ensure_telegram_allowed_chat_id("tg", " "),
        TelegramChatAllowResult::AccountNotFound
    );
    assert_eq!(
        config.ensure_telegram_allowed_chat_id("nobody", "1"),
        TelegramChatAllowResult::AccountNotFound
    );
    assert!(!TelegramChatAllowResult::Allowed.should_save());
    assert!(TelegramChatAllowResult::Bound.should_save());
}

#[test]
fn feishu_migration_prefers_bridge_account_id() {
    let mut config = AppConfig::default();
    config.feishu.app_id = "cli_app".to_string();
    config.feishu.app_secret = "s".to_string();
    assert!(config.apply_platform_defaults());
    assert_eq!(config.feishu_accounts.len(), 1);
    assert_eq!(config.feishu_accounts[0].account_id, "default");
    assert!(!config.migrate_legacy_im_accounts());
}

#[test]
fn legacy_bind_is_replaced_by_default_bind() {
    let mut config = AppConfig::default();
    config.bind = "127.0.0.1:8000".to_string();
    assert!(config.apply_platform_defaults());
    assert_eq!(config.bind, "127.0.0.1:3847");
    assert!(!config.apply_platform_defaults());
}

#[test]
fn effective_feishu_account_uses_app_id_as_id() {
    let mut config = AppConfig::default();
    config.feishu.app_id = " app-9 ".to_string();
    config.feishu.app_secret = "secret".to_string();
    let accounts = config.effective_feishu_accounts();
    assert_eq!(accounts.len(), 1);
    assert_eq!(accounts[0].account_id, "app-9");
    assert!(config.feishu_account(" app-9").is_some());
    assert!(config.feishu_account("other").is_none());
}

#[test]
fn upsert_remove_and_enable_accounts() {
    let mut config = AppConfig::default();
    let mut a = WechatConfig::default();
    a.account_id = "w1".to_string();
    a.bot_token = "t".to_string();
    config.upsert_wechat_account(a.clone());
    let mut b = a.clone();
    b.display_name = "renamed".to_string();
    b.account_id = " w1 ".to_string();
    config.upsert_wechat_account(b);
    assert_eq!(config.wechat_accounts.len(), 1);
    assert_eq!(config.wechat_accounts[0].display_name, "renamed");

    assert!(config.set_im_account_enabled(" WeChat ", "w1", false));
    assert!(!config.wechat_accounts[0].enabled);
    assert!(!config.set_im_account_enabled("wechat", "missing", true));
    assert!(!config.set_im_account_enabled("irc", "w1", true));

    assert!(!config.remove_im_account("wechat", "  "));
    assert!(config.remove_im_account("WECHAT", "w1"));
    assert!(config.wechat_accounts.is_empty());
    assert!(!config.remove_im_account("wechat", "w1"));
}

#[test]
fn effective_accounts_default_ids() {
    let mut config = AppConfig::default();
    config.telegram.bot_token = "x".to_string();
    config.wechat.bot_token = "y".to_string();
    config.wechat.account_id = String::new();
    let tg = config.effective_telegram_accounts();
    assert_eq!(tg[0].account_id, "telegram");
    let wc = config.effective_wechat_accounts();
    assert_eq!(wc[0].account_id, "wechat");
    assert!(config.telegram_account("telegram").is_some());
    assert!(config.wechat_account("wechat").is_some());
    assert!(config.effective_wecom_accounts().is_empty());
    let mut w = WecomConfig::default();
    w.bot_id = "b".to_string();
    config.upsert_wecom_account(w);
    assert_eq!(config.effective_wecom_accounts().len(), 1);
    let mut f = FeishuConfig::default();
    f.account_id = "f1".to_string();
    config.upsert_feishu_account(f);
    assert!(config.effective_feishu_accounts()[0].account_id == "f1");
    let mut t = TelegramConfig::default();
    t.account_id = "t2".to_string();
    config.upsert_telegram_account(t);
    assert_eq!(config.telegram_accounts.len(), 1);
}

#[test]
fn is_configured_and_active_rules() {
    let mut f = FeishuConfig::default();
    assert!(!f.is_configured());
    f.app_id = "a".into();
    assert!(!f.is_configured());
    f.app_secret = " s ".into();
    assert!(f.is_active());
    f.enabled = false;
    assert!(!f.is_active());
    let mut w = WecomConfig::default();
    w.bot_id = "b".into();
    w.secret = "  ".into();
    assert!(!w.is_configured());
}

#[test]
fn remote_control_url_names_local_addresses_by_mode() {
    let config = AppConfig::default();
    let local = Some(BindAddress { local: true, ip: "127.0.0.1".to_string(), port: 3847 });
    assert_eq!(
        config.remote_control_base_url_for_mode(&local, LocalConnectionMode::Standard),
        "http://127.0.0.1:3847/backend-api"
    );
    assert_eq!(
        config.remote_control_base_url_for_mode(&local, LocalConnectionMode::VpnCompatible),
        "http://localhost:3847/backend-api"
    );
    assert_eq!(config.remote_control_base_url(&local), "http://127.0.0.1:3847/backend-api");
    assert_eq!(config.local_listen_port(&local), Some(3847));
}

#[test]
fn remote_control_url_brackets_ipv6_and_keeps_unparsed_bind() {
    let mut config = AppConfig::default();
    let v6 = Some(BindAddress { local: false, ip: "fe80::1".to_string(), port: 80 });
    assert_eq!(config.remote_control_base_url(&v6), "http://[fe80::1]:80/backend-api");
    let v4 = Some(BindAddress { local: false, ip: "192.168.1.2".to_string(), port: 9000 });
    assert_eq!(config.remote_control_base_url(&v4), "http://192.168.1.2:9000/backend-api");
    config.bind = "example.invalid".to_string();
    assert_eq!(config.remote_control_base_url(&None), "http://example.invalid/backend-api");
    assert_eq!(config.local_listen_port(&None), None);
}
