//! Decisions of the IM bridge at start-up and in its listeners: which
//! accounts are started, when there is nothing to start, and how a
//! listener that ends is reported and restarted while its bridge runs.
use vstd::prelude::*;
use crate::config::{
    effective_feishu, effective_views, migrated_telegram, migrated_wechat, migrated_wecom, views, AppConfig,
    FeishuConfig, FeishuModel, ImAccount, TelegramConfig, TelegramModel, WechatConfig, WechatModel, WecomConfig,
    WecomModel,
};
use crate::event_router::LogLine;
use crate::text::{append_str, append_vec, from_chars, to_chars};
use crate::tool_names::{decimal, decimal_exec};

verus! {

/// The accounts among `s` that are enabled and configured, in order.
pub open spec fn active_views<T: ImAccount>(s: Seq<T::V>) -> Seq<T::V>
    decreases s.len(),
{
    if s.len() == 0 {
        Seq::empty()
    } else if T::active_in(s.last()) {
        active_views::<T>(s.drop_last()).push(s.last())
    } else {
        active_views::<T>(s.drop_last())
    }
}

/// The active accounts of a list.
pub fn active_accounts<T: ImAccount>(accounts: Vec<T>) -> (r: Vec<T>)
    ensures
        views(r@) == active_views::<T>(views(accounts@)),
{
    let mut out: Vec<T> = Vec::new();
    let mut k: usize = 0;
    assert(views(accounts@).take(0) =~= Seq::<T::V>::empty());
    assert(views(out@) =~= Seq::<T::V>::empty());
    while k < accounts.len()
        invariant
            k <= accounts@.len(),
            views(out@) == active_views::<T>(views(accounts@).take(k as int)),
        decreases accounts@.len() - k,
    {
        proof {
            assert(views(accounts@).take(k + 1).drop_last() =~= views(accounts@).take(k as int));
            assert(views(accounts@).take(k + 1).last() == accounts@[k as int]@);
        }
        if accounts[k].active() {
            let ghost before = out@;
            out.push(accounts[k].duplicate());
            assert(views(out@) =~= views(before).push(accounts@[k as int]@));
        }
        k += 1;
    }
    assert(views(accounts@).take(accounts@.len() as int) =~= views(accounts@));
    out
}

/// The accounts the bridge starts listeners for.
#[derive(Debug)]
pub struct BridgeStartPlan {
    pub feishu: Vec<FeishuConfig>,
    pub telegram: Vec<TelegramConfig>,
    pub wechat: Vec<WechatConfig>,
    pub wecom: Vec<WecomConfig>,
}

/// The active accounts of each platform, as the configuration resolves
/// them (legacy accounts included).
pub open spec fn plan_feishu(c: AppConfig) -> Seq<FeishuModel> {
    active_views::<FeishuConfig>(
        effective_views::<FeishuConfig>(views(c.feishu_accounts@), c.feishu@, FeishuConfig::configured(c.feishu@)).map_values(
            |v: FeishuModel| effective_feishu(v),
        ),
    )
}

pub open spec fn plan_telegram(c: AppConfig) -> Seq<TelegramModel> {
    active_views::<TelegramConfig>(
        effective_views::<TelegramConfig>(views(c.telegram_accounts@), c.telegram@, TelegramConfig::configured(c.telegram@)).map_values(
            |v: TelegramModel| migrated_telegram(v),
        ),
    )
}

pub open spec fn plan_wechat(c: AppConfig) -> Seq<WechatModel> {
    active_views::<WechatConfig>(
        effective_views::<WechatConfig>(views(c.wechat_accounts@), c.wechat@, WechatConfig::configured(c.wechat@)).map_values(
            |v: WechatModel| migrated_wechat(v),
        ),
    )
}

pub open spec fn plan_wecom(c: AppConfig) -> Seq<WecomModel> {
    active_views::<WecomConfig>(
        effective_views::<WecomConfig>(views(c.wecom_accounts@), c.wecom@, WecomConfig::configured(c.wecom@)).map_values(
            |v: WecomModel| migrated_wecom(v),
        ),
    )
}

pub open spec fn no_accounts_line() -> (Seq<char>, Seq<char>, Seq<char>) {
    ("error"@, "bridge_config_invalid"@, "no enabled IM account is configured"@)
}

/// `start_bridge`'s choice of accounts: the active ones of each platform;
/// with none at all the bridge does not start and logs why.
pub fn bridge_start_plan(config: &AppConfig) -> (r: Result<BridgeStartPlan, LogLine>)
    ensures
        match r {
            Ok(p) => {
                &&& views(p.feishu@) == plan_feishu(*config)
                &&& views(p.telegram@) == plan_telegram(*config)
                &&& views(p.wechat@) == plan_wechat(*config)
                &&& views(p.wecom@) == plan_wecom(*config)
                &&& !(p.feishu@.len() == 0 && p.telegram@.len() == 0 && p.wechat@.len() == 0 && p.wecom@.len()
                    == 0)
            },
            Err(line) => {
                &&& line@ == no_accounts_line()
                &&& plan_feishu(*config).len() == 0
                &&& plan_telegram(*config).len() == 0
                &&& plan_wechat(*config).len() == 0
                &&& plan_wecom(*config).len() == 0
            },
        },
{
    let feishu = active_accounts(config.effective_feishu_accounts());
    let telegram = active_accounts(config.effective_telegram_accounts());
    let wechat = active_accounts(config.effective_wechat_accounts());
    let wecom = active_accounts(config.effective_wecom_accounts());
    if feishu.len() == 0 && telegram.len() == 0 && wechat.len() == 0 && wecom.len() == 0 {
        return Err(
            LogLine {
                level: String::from_str("error"),
                kind: String::from_str("bridge_config_invalid"),
                message: String::from_str("no enabled IM account is configured"),
            },
        );
    }
    Ok(BridgeStartPlan { feishu, telegram, wechat, wecom })
}


// ─── listeners ─────────────────────────────────────────────────────────

/// How long a listener waits before it reconnects, in seconds.
pub const LISTENER_RETRY_SECS: u64 = 5;

#[derive(Debug, Clone, Copy, PartialEq, Eq, Structural)]
pub enum ListenerKind {
    FeishuWs,
    TelegramPolling,
    WechatPolling,
    WecomWs,
}

/// What happened to a listener.
#[derive(Debug)]
pub enum ListenerEvent {
    /// The listener is about to connect.
    Starting,
    /// The listener ended, cleanly or with an error.
    Ended(Result<(), String>),
}

/// What a listener does next.
#[derive(Debug)]
pub enum ListenerAction {
    /// Its bridge is no longer the running one: stop.
    Stop,
    /// Connect, after logging.
    Run(Option<LogLine>),
    /// Log, wait `LISTENER_RETRY_SECS` and start again.
    Retry(Option<LogLine>),
}

pub open spec fn kind_prefix(kind: ListenerKind) -> Seq<char> {
    match kind {
        ListenerKind::FeishuWs => "feishu_ws"@,
        ListenerKind::TelegramPolling => "telegram_polling"@,
        ListenerKind::WechatPolling => "wechat_polling"@,
        ListenerKind::WecomWs => "wecom_ws"@,
    }
}

/// The log entry for a listener event, if any: connecting (`_connecting`
/// for Feishu, `_starting` for polling), stopped, or failed with the error;
/// WeCom logs only failures.
pub open spec fn listener_line(kind: ListenerKind, account_id: Seq<char>, event: ListenerEvent) -> Option<
    (Seq<char>, Seq<char>, Seq<char>),
> {
    match event {
        ListenerEvent::Starting => match kind {
            ListenerKind::FeishuWs => Some(("info"@, "feishu_ws_connecting"@, "account="@ + account_id)),
            ListenerKind::WecomWs => None,
            _ => Some(("info"@, kind_prefix(kind) + "_starting"@, "account="@ + account_id)),
        },
        ListenerEvent::Ended(Ok(())) => match kind {
            ListenerKind::FeishuWs => Some(
                ("warn"@, "feishu_ws_stopped"@, "account="@ + account_id + " websocket stopped"@),
            ),
            ListenerKind::WecomWs => None,
            _ => Some(("warn"@, kind_prefix(kind) + "_stopped"@, "account="@ + account_id + " polling stopped"@)),
        },
        ListenerEvent::Ended(Err(e)) => Some(
            ("error"@, kind_prefix(kind) + "_failed"@, "account="@ + account_id + " "@ + e@),
        ),
    }
}

pub open spec fn opt_line_view(o: Option<LogLine>) -> Option<(Seq<char>, Seq<char>, Seq<char>)> {
    match o {
        Some(l) => Some(l@),
        None => None,
    }
}

fn line3(level: &str, kind: &Vec<char>, message: &Vec<char>) -> (r: LogLine)
    ensures
        r@ == (level@, kind@, message@),
{
    LogLine { level: String::from_str(level), kind: from_chars(kind), message: from_chars(message) }
}

fn kind_prefix_exec(kind: ListenerKind) -> (r: Vec<char>)
    ensures
        r@ == kind_prefix(kind),
{
    match kind {
        ListenerKind::FeishuWs => to_chars("feishu_ws"),
        ListenerKind::TelegramPolling => to_chars("telegram_polling"),
        ListenerKind::WechatPolling => to_chars("wechat_polling"),
        ListenerKind::WecomWs => to_chars("wecom_ws"),
    }
}

/// One step of a listener's loop: it starts only while its bridge is the
/// running one, and after it ends it is reported and retried.
pub fn listener_step(current: bool, kind: ListenerKind, account_id: &str, event: &ListenerEvent) -> (r:
    ListenerAction)
    ensures
        match event {
            ListenerEvent::Starting => if !current {
                r is Stop
            } else {
                r matches ListenerAction::Run(l) && opt_line_view(l) == listener_line(kind, account_id@, *event)
            },
            ListenerEvent::Ended(_) => r matches ListenerAction::Retry(l) && opt_line_view(l) == listener_line(
                kind,
                account_id@,
                *event,
            ),
        },
{
    let mut account = to_chars("account=");
    append_str(&mut account, account_id);
    match event {
        ListenerEvent::Starting => {
            if !current {
                return ListenerAction::Stop;
            }
            match kind {
                ListenerKind::FeishuWs => ListenerAction::Run(Some(line3("info", &to_chars("feishu_ws_connecting"), &account))),
                ListenerKind::WecomWs => ListenerAction::Run(None),
                _ => {
                    let mut k = kind_prefix_exec(kind);
                    append_str(&mut k, "_starting");
                    ListenerAction::Run(Some(line3("info", &k, &account)))
                },
            }
        },
        ListenerEvent::Ended(Ok(())) => match kind {
            ListenerKind::FeishuWs => {
                append_str(&mut account, " websocket stopped");
                ListenerAction::Retry(Some(line3("warn", &to_chars("feishu_ws_stopped"), &account)))
            },
            ListenerKind::WecomWs => ListenerAction::Retry(None),
            _ => {
                let mut k = kind_prefix_exec(kind);
                append_str(&mut k, "_stopped");
                append_str(&mut account, " polling stopped");
                ListenerAction::Retry(Some(line3("warn", &k, &account)))
            },
        },
        ListenerEvent::Ended(Err(e)) => {
            let mut k = kind_prefix_exec(kind);
            append_str(&mut k, "_failed");
            append_str(&mut account, " ");
            append_str(&mut account, e.as_str());
            ListenerAction::Retry(Some(line3("error", &k, &account)))
        },
    }
}

/// The log entry once the bridge runs, with the number of accounts of each
/// platform it serves.
pub fn bridge_started_line(feishu: usize, telegram: usize, wechat: usize, wecom: usize) -> (r: LogLine)
    ensures
        r@ == (
            "info"@,
            "bridge_started"@,
            "bridge running feishu="@ + decimal(feishu as nat) + " telegram="@ + decimal(telegram as nat)
                + " wechat="@ + decimal(wechat as nat) + " wecom="@ + decimal(wecom as nat),
        ),
{
    let mut m = to_chars("bridge running feishu=");
    append_vec(&mut m, &decimal_exec(feishu));
    append_str(&mut m, " telegram=");
    append_vec(&mut m, &decimal_exec(telegram));
    append_str(&mut m, " wechat=");
    append_vec(&mut m, &decimal_exec(wechat));
    append_str(&mut m, " wecom=");
    append_vec(&mut m, &decimal_exec(wecom));
    line3("info", &to_chars("bridge_started"), &m)
}

} // verus!
