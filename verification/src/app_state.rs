//! Runtime status records of the IM connections.
use vstd::prelude::*;
use crate::text::{append_str, append_vec, from_chars, to_chars, trim, trim_vec};

verus! {

/// The IM platforms an account can belong to.
#[derive(Debug, Clone, Copy, PartialEq, Eq, Structural)]
pub enum ImPlatformKind {
    Feishu,
    Telegram,
    Wechat,
    Wecom,
}

impl ImPlatformKind {
    pub open spec fn key_spec(self) -> Seq<char> {
        match self {
            ImPlatformKind::Feishu => "feishu"@,
            ImPlatformKind::Telegram => "telegram"@,
            ImPlatformKind::Wechat => "wechat"@,
            ImPlatformKind::Wecom => "wecom"@,
        }
    }

    /// The platform's key in account keys.
    pub fn key(self) -> (r: &'static str)
        ensures
            r@ == self.key_spec(),
    {
        match self {
            ImPlatformKind::Feishu => "feishu",
            ImPlatformKind::Telegram => "telegram",
            ImPlatformKind::Wechat => "wechat",
            ImPlatformKind::Wecom => "wecom",
        }
    }
}

#[derive(Debug, Clone, Default)]
pub struct FeishuWsState {
    pub connecting: bool,
    pub connected: bool,
    pub last_error: Option<String>,
}

#[derive(Debug, Clone, Default)]
pub struct WechatState {
    pub polling: bool,
    pub connected: bool,
    pub last_error: Option<String>,
    pub last_event_at_ms: Option<u128>,
    pub last_inbound_at_ms: Option<u128>,
}

#[derive(Debug, Clone, Default)]
pub struct TelegramState {
    pub polling: bool,
    pub connected: bool,
    pub last_error: Option<String>,
    pub last_event_at_ms: Option<u128>,
    pub last_inbound_at_ms: Option<u128>,
}

#[derive(Debug, Clone)]
pub struct ImAccountRuntimeState {
    pub platform: ImPlatformKind,
    pub account_id: String,
    pub connecting: bool,
    pub polling: bool,
    pub connected: bool,
    pub last_error: Option<String>,
    pub last_event_at_ms: Option<u128>,
    pub last_inbound_at_ms: Option<u128>,
}

impl ImAccountRuntimeState {
    /// A fresh, idle, error-free record for the account.
    pub fn new(platform: ImPlatformKind, account_id: String) -> (r: Self)
        ensures
            r.platform == platform,
            r.account_id@ == account_id@,
            !r.connecting && !r.polling && !r.connected,
            r.last_error is None,
            r.last_event_at_ms is None,
            r.last_inbound_at_ms is None,
    {
        ImAccountRuntimeState {
            platform,
            account_id,
            connecting: false,
            polling: false,
            connected: false,
            last_error: None,
            last_event_at_ms: None,
            last_inbound_at_ms: None,
        }
    }
}

#[derive(Debug, Clone)]
pub struct WechatOnboardSession {
    pub session_key: String,
    pub qrcode: String,
    pub started_at_ms: u128,
    pub current_api_base_url: String,
}

/// `platform:account_id`, the account id trimmed.
pub fn im_account_key(platform: ImPlatformKind, account_id: &str) -> (r: String)
    ensures
        r@ == platform.key_spec() + seq![':'] + trim(account_id@),
{
    let mut v = to_chars(platform.key());
    v.push(':');
    let a = to_chars(account_id);
    let t = trim_vec(&a);
    append_vec(&mut v, &t);
    from_chars(&v)
}


// ─── the event log ─────────────────────────────────────────────────────

/// How many events the app keeps.
pub const MAX_EVENTS: usize = 300;

/// One entry of the app's event log.
#[derive(Debug, Clone)]
pub struct EventRecord {
    pub at_ms: i64,
    pub level: String,
    pub kind: String,
    pub message: String,
}

/// The last `n` entries of `s` (all of them when there are fewer).
pub open spec fn keep_latest<T>(s: Seq<T>, n: nat) -> Seq<T> {
    if s.len() > n {
        s.skip(s.len() - n)
    } else {
        s
    }
}

/// Appends an event to the log and drops the oldest entries beyond
/// `MAX_EVENTS`.
pub fn push_event_record(events: &mut Vec<EventRecord>, record: EventRecord)
    ensures
        final(events)@ == keep_latest(old(events)@.push(record), MAX_EVENTS as nat),
{
    let ghost full = old(events)@.push(record);
    events.push(record);
    let ghost mut k: int = 0;
    while events.len() > MAX_EVENTS
        invariant
            0 <= k <= full.len(),
            events@ == full.skip(k),
            k > 0 ==> full.len() - k >= MAX_EVENTS,
        decreases events@.len(),
    {
        events.remove(0);
        proof {
            assert(events@ =~= full.skip(k + 1));
            k = k + 1;
        }
    }
    proof {
        if full.len() > MAX_EVENTS {
            assert(full.len() - k == MAX_EVENTS);
        } else {
            assert(k == 0);
            assert(full.skip(0) =~= full);
        }
    }
}


/// The chain-log line of an event.
pub open spec fn event_log_line(level: Seq<char>, kind: Seq<char>, message: Seq<char>) -> Seq<char> {
    "[event] level="@ + level + " kind="@ + kind + " message="@ + message
}

/// Records an event at the current time in the log, keeping the latest
/// `MAX_EVENTS`. The time is read from the system clock. Returns the
/// event's chain-log line and what the chain log does with it
/// (`chain_log::write_line`): nothing, or a write with or without a flush.
pub fn push_event(
    events: &mut Vec<EventRecord>,
    chain: Option<&crate::chain_log::ChainLog>,
    level: &str,
    kind: &str,
    message: String,
) -> (r: (String, Option<bool>))
    ensures
        r.0@ == event_log_line(level@, kind@, message@),
        match chain {
            Some(l) => if crate::chain_log::writes_by_default(r.0@, l.diagnostic) {
                r.1 == Some(crate::chain_log::is_problem_line(r.0@))
            } else {
                r.1 is None
            },
            None => r.1 is None,
        },
        final(events)@.len() > 0,
        final(events)@ == keep_latest(old(events)@.push(final(events)@.last()), MAX_EVENTS as nat),
        final(events)@.last().level@ == level@,
        final(events)@.last().kind@ == kind@,
        final(events)@.last().message@ == message@,
{
    let mut line = to_chars("[event] level=");
    append_str(&mut line, level);
    append_str(&mut line, " kind=");
    append_str(&mut line, kind);
    append_str(&mut line, " message=");
    append_str(&mut line, message.as_str());
    let line = from_chars(&line);
    let write = crate::chain_log::write_line(chain, line.as_str());
    let record = EventRecord {
        at_ms: crate::request_log::now_ms(),
        level: String::from_str(level),
        kind: String::from_str(kind),
        message,
    };
    let ghost r = record;
    push_event_record(events, record);
    assert(events@.last() == r);
    (line, write)
}

} // verus!
