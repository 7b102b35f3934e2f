//! Application configuration and the management of IM accounts.
//!
//! Each IM platform (Feishu, Telegram, WeChat, WeCom) has a legacy single
//! account field and a list of accounts. The functions here migrate the
//! legacy account into the list, resolve the effective accounts, and add,
//! remove, enable or look up accounts by id.
use vstd::prelude::*;
use crate::text::{
    append_str, append_vec, contains, eq_str, eq_vec, from_chars, lower, lower_vec, str_contains, to_chars, trim,
    trim_str, trim_vec,
};
use crate::tool_names::{decimal, decimal_u64};

verus! {

pub const DEFAULT_BIND: &'static str = "127.0.0.1:3847";

pub const LEGACY_DEFAULT_BIND: &'static str = "127.0.0.1:8000";

/// The views of a list of strings.
pub open spec fn strs(v: Seq<String>) -> Seq<Seq<char>> {
    v.map_values(|s: String| s@)
}

pub fn clone_strs(v: &Vec<String>) -> (r: Vec<String>)
    ensures
        strs(r@) == strs(v@),
{
    let mut r: Vec<String> = Vec::new();
    let mut i: usize = 0;
    while i < v.len()
        invariant
            i <= v.len(),
            strs(r@) =~= strs(v@).take(i as int),
        decreases v.len() - i,
    {
        let c = v[i].clone();
        let ghost before = r@;
        r.push(c);
        assert(strs(r@) =~= strs(before).push(v@[i as int]@));
        assert(strs(v@).take(i + 1) =~= strs(v@).take(i as int).push(v@[i as int]@));
        i += 1;
    }
    assert(strs(v@).take(v.len() as int) =~= strs(v@));
    r
}

pub fn clone_opt_str(o: &Option<String>) -> (r: Option<String>)
    ensures
        crate::tool_names::opt_view(r) == crate::tool_names::opt_view(*o),
{
    match o {
        Some(s) => Some(s.clone()),
        None => None,
    }
}

#[derive(Debug, Clone, Copy, Default, PartialEq, Eq, Structural)]
pub enum LocalConnectionMode {
    #[default]
    Standard,
    VpnCompatible,
}

#[derive(Debug, Clone, Copy, Default, PartialEq, Eq, Structural)]
pub enum OutboundProxyMode {
    #[default]
    System,
    Direct,
    Custom,
}

#[derive(Debug, Default, PartialEq, Eq)]
pub struct OutboundProxyConfig {
    pub mode: OutboundProxyMode,
    pub url: String,
}

impl Clone for OutboundProxyConfig {
    fn clone(&self) -> (r: Self)
        ensures
            r.mode == self.mode,
            r.url@ == self.url@,
    {
        OutboundProxyConfig { mode: self.mode, url: self.url.clone() }
    }
}

// ─── accounts ──────────────────────────────────────────────────────────

/// What the account helpers need from an IM account type.
pub trait ImAccount: View + Sized {
    /// The account id within a view.
    spec fn id_in(v: Self::V) -> Seq<char>;

    /// The view with the enabled flag replaced.
    spec fn with_enabled(v: Self::V, enabled: bool) -> Self::V;

    fn account_id_str(&self) -> (r: &str)
        ensures
            r@ == Self::id_in(self@),
    ;

    fn set_enabled(&mut self, enabled: bool)
        ensures
            final(self)@ == Self::with_enabled(old(self)@, enabled),
    ;

    fn duplicate(&self) -> (r: Self)
        ensures
            r@ == self@,
    ;

    /// The account is enabled and configured.
    spec fn active_in(v: Self::V) -> bool;

    fn active(&self) -> (r: bool)
        ensures
            r == Self::active_in(self@),
    ;
}

#[derive(Debug)]
pub struct FeishuConfig {
    pub enabled: bool,
    pub account_id: String,
    pub app_id: String,
    pub app_secret: String,
    pub display_name: String,
    pub mention_only: bool,
    pub allowed_open_ids: Vec<String>,
    pub allowed_chat_ids: Vec<String>,
}

pub ghost struct FeishuModel {
    pub enabled: bool,
    pub account_id: Seq<char>,
    pub app_id: Seq<char>,
    pub app_secret: Seq<char>,
    pub display_name: Seq<char>,
    pub mention_only: bool,
    pub allowed_open_ids: Seq<Seq<char>>,
    pub allowed_chat_ids: Seq<Seq<char>>,
}

impl View for FeishuConfig {
    type V = FeishuModel;

    open spec fn view(&self) -> FeishuModel {
        FeishuModel {
            enabled: self.enabled,
            account_id: self.account_id@,
            app_id: self.app_id@,
            app_secret: self.app_secret@,
            display_name: self.display_name@,
            mention_only: self.mention_only,
            allowed_open_ids: strs(self.allowed_open_ids@),
            allowed_chat_ids: strs(self.allowed_chat_ids@),
        }
    }
}

impl Clone for FeishuConfig {
    fn clone(&self) -> (r: Self)
        ensures
            r@ == self@,
    {
        FeishuConfig {
            enabled: self.enabled,
            account_id: self.account_id.clone(),
            app_id: self.app_id.clone(),
            app_secret: self.app_secret.clone(),
            display_name: self.display_name.clone(),
            mention_only: self.mention_only,
            allowed_open_ids: clone_strs(&self.allowed_open_ids),
            allowed_chat_ids: clone_strs(&self.allowed_chat_ids),
        }
    }
}

impl ImAccount for FeishuConfig {
    open spec fn id_in(v: FeishuModel) -> Seq<char> {
        v.account_id
    }

    open spec fn with_enabled(v: FeishuModel, enabled: bool) -> FeishuModel {
        FeishuModel { enabled, ..v }
    }

    fn account_id_str(&self) -> (r: &str) {
        self.account_id.as_str()
    }

    fn set_enabled(&mut self, enabled: bool) {
        self.enabled = enabled;
    }

    fn duplicate(&self) -> (r: Self) {
        self.clone()
    }

    open spec fn active_in(v: FeishuModel) -> bool {
        v.enabled && FeishuConfig::configured(v)
    }

    fn active(&self) -> (r: bool) {
        self.is_active()
    }
}

impl FeishuConfig {
    pub open spec fn configured(v: FeishuModel) -> bool {
        trim(v.app_id).len() > 0 && trim(v.app_secret).len() > 0
    }

    pub fn is_configured(&self) -> (r: bool)
        ensures
            r == Self::configured(self@),
    {
        !trim_str(self.app_id.as_str()).as_str().is_empty() && !trim_str(
            self.app_secret.as_str(),
        ).as_str().is_empty()
    }

    pub fn is_active(&self) -> (r: bool)
        ensures
            r == (self.enabled && Self::configured(self@)),
    {
        self.enabled && self.is_configured()
    }
}

impl Default for FeishuConfig {
    fn default() -> (r: Self)
        ensures
            r.enabled,
            r.mention_only,
            r.account_id@.len() == 0,
            r.app_id@.len() == 0,
            r.app_secret@.len() == 0,
            r.display_name@.len() == 0,
            r.allowed_open_ids@.len() == 0,
            r.allowed_chat_ids@.len() == 0,
    {
        FeishuConfig {
            enabled: true,
            account_id: String::new(),
            app_id: String::new(),
            app_secret: String::new(),
            display_name: String::new(),
            mention_only: true,
            allowed_open_ids: Vec::new(),
            allowed_chat_ids: Vec::new(),
        }
    }
}

#[derive(Debug)]
pub struct TelegramConfig {
    pub enabled: bool,
    pub account_id: String,
    pub bot_token: String,
    pub display_name: String,
    pub mention_only: bool,
    pub allowed_chat_ids: Vec<String>,
}

pub ghost struct TelegramModel {
    pub enabled: bool,
    pub account_id: Seq<char>,
    pub bot_token: Seq<char>,
    pub display_name: Seq<char>,
    pub mention_only: bool,
    pub allowed_chat_ids: Seq<Seq<char>>,
}

impl View for TelegramConfig {
    type V = TelegramModel;

    open spec fn view(&self) -> TelegramModel {
        TelegramModel {
            enabled: self.enabled,
            account_id: self.account_id@,
            bot_token: self.bot_token@,
            display_name: self.display_name@,
            mention_only: self.mention_only,
            allowed_chat_ids: strs(self.allowed_chat_ids@),
        }
    }
}

impl Clone for TelegramConfig {
    fn clone(&self) -> (r: Self)
        ensures
            r@ == self@,
    {
        TelegramConfig {
            enabled: self.enabled,
            account_id: self.account_id.clone(),
            bot_token: self.bot_token.clone(),
            display_name: self.display_name.clone(),
            mention_only: self.mention_only,
            allowed_chat_ids: clone_strs(&self.allowed_chat_ids),
        }
    }
}

impl ImAccount for TelegramConfig {
    open spec fn id_in(v: TelegramModel) -> Seq<char> {
        v.account_id
    }

    open spec fn with_enabled(v: TelegramModel, enabled: bool) -> TelegramModel {
        TelegramModel { enabled, ..v }
    }

    fn account_id_str(&self) -> (r: &str) {
        self.account_id.as_str()
    }

    fn set_enabled(&mut self, enabled: bool) {
        self.enabled = enabled;
    }

    fn duplicate(&self) -> (r: Self) {
        self.clone()
    }

    open spec fn active_in(v: TelegramModel) -> bool {
        v.enabled && TelegramConfig::configured(v)
    }

    fn active(&self) -> (r: bool) {
        self.is_active()
    }
}

impl TelegramConfig {
    pub open spec fn configured(v: TelegramModel) -> bool {
        trim(v.bot_token).len() > 0
    }

    pub fn is_configured(&self) -> (r: bool)
        ensures
            r == Self::configured(self@),
    {
        !trim_str(self.bot_token.as_str()).as_str().is_empty()
    }

    pub fn is_active(&self) -> (r: bool)
        ensures
            r == (self.enabled && Self::configured(self@)),
    {
        self.enabled && self.is_configured()
    }
}

impl Default for TelegramConfig {
    fn default() -> (r: Self)
        ensures
            r.enabled,
            !r.mention_only,
            r.account_id@.len() == 0,
            r.bot_token@.len() == 0,
            r.display_name@.len() == 0,
            r.allowed_chat_ids@.len() == 0,
    {
        TelegramConfig {
            enabled: true,
            account_id: String::new(),
            bot_token: String::new(),
            display_name: String::new(),
            mention_only: false,
            allowed_chat_ids: Vec::new(),
        }
    }
}

#[derive(Debug)]
pub struct WechatConfig {
    pub enabled: bool,
    pub account_id: String,
    pub bot_token: String,
    pub display_name: String,
    pub base_url: String,
    pub user_id: String,
    pub bot_type: String,
    pub allowed_user_ids: Vec<String>,
}

pub ghost struct WechatModel {
    pub enabled: bool,
    pub account_id: Seq<char>,
    pub bot_token: Seq<char>,
    pub display_name: Seq<char>,
    pub base_url: Seq<char>,
    pub user_id: Seq<char>,
    pub bot_type: Seq<char>,
    pub allowed_user_ids: Seq<Seq<char>>,
}

impl View for WechatConfig {
    type V = WechatModel;

    open spec fn view(&self) -> WechatModel {
        WechatModel {
            enabled: self.enabled,
            account_id: self.account_id@,
            bot_token: self.bot_token@,
            display_name: self.display_name@,
            base_url: self.base_url@,
            user_id: self.user_id@,
            bot_type: self.bot_type@,
            allowed_user_ids: strs(self.allowed_user_ids@),
        }
    }
}

impl Clone for WechatConfig {
    fn clone(&self) -> (r: Self)
        ensures
            r@ == self@,
    {
        WechatConfig {
            enabled: self.enabled,
            account_id: self.account_id.clone(),
            bot_token: self.bot_token.clone(),
            display_name: self.display_name.clone(),
            base_url: self.base_url.clone(),
            user_id: self.user_id.clone(),
            bot_type: self.bot_type.clone(),
            allowed_user_ids: clone_strs(&self.allowed_user_ids),
        }
    }
}

impl ImAccount for WechatConfig {
    open spec fn id_in(v: WechatModel) -> Seq<char> {
        v.account_id
    }

    open spec fn with_enabled(v: WechatModel, enabled: bool) -> WechatModel {
        WechatModel { enabled, ..v }
    }

    fn account_id_str(&self) -> (r: &str) {
        self.account_id.as_str()
    }

    fn set_enabled(&mut self, enabled: bool) {
        self.enabled = enabled;
    }

    fn duplicate(&self) -> (r: Self) {
        self.clone()
    }

    open spec fn active_in(v: WechatModel) -> bool {
        v.enabled && WechatConfig::configured(v)
    }

    fn active(&self) -> (r: bool) {
        self.is_active()
    }
}

impl WechatConfig {
    pub open spec fn configured(v: WechatModel) -> bool {
        trim(v.bot_token).len() > 0
    }

    pub fn is_configured(&self) -> (r: bool)
        ensures
            r == Self::configured(self@),
    {
        !trim_str(self.bot_token.as_str()).as_str().is_empty()
    }

    pub fn is_active(&self) -> (r: bool)
        ensures
            r == (self.enabled && Self::configured(self@)),
    {
        self.enabled && self.is_configured()
    }
}

impl Default for WechatConfig {
    fn default() -> (r: Self)
        ensures
            r.enabled,
            r.account_id@ == "wechat"@,
            r.bot_type@ == "3"@,
            r.bot_token@.len() == 0,
            r.display_name@.len() == 0,
            r.base_url@.len() == 0,
            r.user_id@.len() == 0,
            r.allowed_user_ids@.len() == 0,
    {
        WechatConfig {
            enabled: true,
            account_id: String::from_str("wechat"),
            bot_token: String::new(),
            display_name: String::new(),
            base_url: String::new(),
            user_id: String::new(),
            bot_type: String::from_str("3"),
            allowed_user_ids: Vec::new(),
        }
    }
}

#[derive(Debug)]
pub struct WecomConfig {
    pub enabled: bool,
    pub account_id: String,
    pub bot_id: String,
    pub secret: String,
    pub display_name: String,
    pub websocket_url: String,
    pub allowed_user_ids: Vec<String>,
    pub allowed_chat_ids: Vec<String>,
}

pub ghost struct WecomModel {
    pub enabled: bool,
    pub account_id: Seq<char>,
    pub bot_id: Seq<char>,
    pub secret: Seq<char>,
    pub display_name: Seq<char>,
    pub websocket_url: Seq<char>,
    pub allowed_user_ids: Seq<Seq<char>>,
    pub allowed_chat_ids: Seq<Seq<char>>,
}

impl View for WecomConfig {
    type V = WecomModel;

    open spec fn view(&self) -> WecomModel {
        WecomModel {
            enabled: self.enabled,
            account_id: self.account_id@,
            bot_id: self.bot_id@,
            secret: self.secret@,
            display_name: self.display_name@,
            websocket_url: self.websocket_url@,
            allowed_user_ids: strs(self.allowed_user_ids@),
            allowed_chat_ids: strs(self.allowed_chat_ids@),
        }
    }
}

impl Clone for WecomConfig {
    fn clone(&self) -> (r: Self)
        ensures
            r@ == self@,
    {
        WecomConfig {
            enabled: self.enabled,
            account_id: self.account_id.clone(),
            bot_id: self.bot_id.clone(),
            secret: self.secret.clone(),
            display_name: self.display_name.clone(),
            websocket_url: self.websocket_url.clone(),
            allowed_user_ids: clone_strs(&self.allowed_user_ids),
            allowed_chat_ids: clone_strs(&self.allowed_chat_ids),
        }
    }
}

impl ImAccount for WecomConfig {
    open spec fn id_in(v: WecomModel) -> Seq<char> {
        v.account_id
    }

    open spec fn with_enabled(v: WecomModel, enabled: bool) -> WecomModel {
        WecomModel { enabled, ..v }
    }

    fn account_id_str(&self) -> (r: &str) {
        self.account_id.as_str()
    }

    fn set_enabled(&mut self, enabled: bool) {
        self.enabled = enabled;
    }

    fn duplicate(&self) -> (r: Self) {
        self.clone()
    }

    open spec fn active_in(v: WecomModel) -> bool {
        v.enabled && WecomConfig::configured(v)
    }

    fn active(&self) -> (r: bool) {
        self.is_active()
    }
}

impl WecomConfig {
    pub open spec fn configured(v: WecomModel) -> bool {
        trim(v.bot_id).len() > 0 && trim(v.secret).len() > 0
    }

    pub fn is_configured(&self) -> (r: bool)
        ensures
            r == Self::configured(self@),
    {
        !trim_str(self.bot_id.as_str()).as_str().is_empty() && !trim_str(
            self.secret.as_str(),
        ).as_str().is_empty()
    }

    pub fn is_active(&self) -> (r: bool)
        ensures
            r == (self.enabled && Self::configured(self@)),
    {
        self.enabled && self.is_configured()
    }
}

impl Default for WecomConfig {
    fn default() -> (r: Self)
        ensures
            r.enabled,
            r.account_id@ == "wecom"@,
            r.display_name@ == "企业微信机器人"@,
            r.websocket_url@ == "wss://openws.work.weixin.qq.com"@,
            r.bot_id@.len() == 0,
            r.secret@.len() == 0,
            r.allowed_user_ids@.len() == 0,
            r.allowed_chat_ids@.len() == 0,
    {
        WecomConfig {
            enabled: true,
            account_id: String::from_str("wecom"),
            bot_id: String::new(),
            secret: String::new(),
            display_name: String::from_str("企业微信机器人"),
            websocket_url: String::from_str("wss://openws.work.weixin.qq.com"),
            allowed_user_ids: Vec::new(),
            allowed_chat_ids: Vec::new(),
        }
    }
}

#[derive(Debug)]
pub struct BridgeConfig {
    pub enabled: bool,
    pub account_id: String,
    pub send_streaming: bool,
}

impl Clone for BridgeConfig {
    fn clone(&self) -> (r: Self)
        ensures
            r.enabled == self.enabled,
            r.account_id@ == self.account_id@,
            r.send_streaming == self.send_streaming,
    {
        BridgeConfig { enabled: self.enabled, account_id: self.account_id.clone(), send_streaming: self.send_streaming }
    }
}

impl Default for BridgeConfig {
    fn default() -> (r: Self)
        ensures
            r.enabled,
            r.account_id@ == "default"@,
            r.send_streaming,
    {
        BridgeConfig { enabled: true, account_id: String::from_str("default"), send_streaming: true }
    }
}

#[derive(Debug)]
pub struct LoggingConfig {
    pub diagnostic: bool,
    pub max_mb: u64,
    pub retention_days: u64,
    pub log_dir: Option<String>,
}

impl Clone for LoggingConfig {
    fn clone(&self) -> (r: Self)
        ensures
            r.diagnostic == self.diagnostic,
            r.max_mb == self.max_mb,
            r.retention_days == self.retention_days,
            crate::tool_names::opt_view(r.log_dir) == crate::tool_names::opt_view(self.log_dir),
    {
        LoggingConfig {
            diagnostic: self.diagnostic,
            max_mb: self.max_mb,
            retention_days: self.retention_days,
            log_dir: clone_opt_str(&self.log_dir),
        }
    }
}

impl LoggingConfig {
    /// The default logging settings; diagnostics default to on in debug builds.
    pub fn default_for_build(debug_build: bool) -> (r: Self)
        ensures
            r.diagnostic == debug_build,
            r.max_mb == 20,
            r.retention_days == 7,
            r.log_dir is None,
    {
        LoggingConfig { diagnostic: debug_build, max_mb: 20, retention_days: 7, log_dir: None }
    }
}

// ─── generic account helpers ───────────────────────────────────────────

/// The views of a list of accounts.
pub open spec fn views<T: ImAccount>(s: Seq<T>) -> Seq<T::V> {
    s.map_values(|a: T| a@)
}

/// The account's id, trimmed, is `id`.
pub open spec fn id_matches<T: ImAccount>(v: T::V, id: Seq<char>) -> bool {
    trim(T::id_in(v)) == id
}

/// The position of the first account whose trimmed id is `id`.
pub open spec fn first_match<T: ImAccount>(s: Seq<T::V>, id: Seq<char>) -> Option<int>
    decreases s.len(),
{
    if s.len() == 0 {
        None
    } else if id_matches::<T>(s[0], id) {
        Some(0)
    } else {
        match first_match::<T>(s.drop_first(), id) {
            Some(i) => Some(i + 1),
            None => None,
        }
    }
}

/// The accounts whose trimmed id is not `id`, in order.
pub open spec fn without_id<T: ImAccount>(s: Seq<T::V>, id: Seq<char>) -> Seq<T::V>
    decreases s.len(),
{
    if s.len() == 0 {
        s
    } else if id_matches::<T>(s.last(), id) {
        without_id::<T>(s.drop_last(), id)
    } else {
        without_id::<T>(s.drop_last(), id).push(s.last())
    }
}

pub proof fn lemma_first_match<T: ImAccount>(s: Seq<T::V>, id: Seq<char>, k: int)
    requires
        0 <= k <= s.len(),
        forall|j: int| 0 <= j < k ==> !id_matches::<T>(s[j], id),
        k < s.len() ==> id_matches::<T>(s[k], id),
    ensures
        first_match::<T>(s, id) == if k < s.len() { Some(k) } else { None::<int> },
    decreases s.len(),
{
    if s.len() > 0 && k > 0 {
        let t = s.drop_first();
        assert forall|j: int| 0 <= j < k - 1 implies !id_matches::<T>(t[j], id) by {
            assert(t[j] == s[j + 1]);
        }
        if k - 1 < t.len() {
            assert(t[k - 1] == s[k]);
        }
        lemma_first_match::<T>(t, id, k - 1);
        assert(!id_matches::<T>(s[0], id));
    }
}

fn trimmed_id<T: ImAccount>(a: &T) -> (r: String)
    ensures
        r@ == trim(T::id_in(a@)),
{
    trim_str(a.account_id_str())
}

/// The position of the first account whose trimmed id is `id`.
pub fn position_by_id<T: ImAccount>(accounts: &Vec<T>, id: &String) -> (r: Option<usize>)
    ensures
        match r {
            Some(i) => first_match::<T>(views(accounts@), id@) == Some(i as int) && i < accounts@.len(),
            None => first_match::<T>(views(accounts@), id@) is None,
        },
{
    let mut i: usize = 0;
    while i < accounts.len()
        invariant
            i <= accounts@.len(),
            forall|j: int| 0 <= j < i ==> !id_matches::<T>(#[trigger] views(accounts@)[j], id@),
        decreases accounts@.len() - i,
    {
        let t = trimmed_id(&accounts[i]);
        if t == *id {
            proof {
                lemma_first_match::<T>(views(accounts@), id@, i as int);
            }
            return Some(i);
        }
        i += 1;
    }
    proof {
        lemma_first_match::<T>(views(accounts@), id@, i as int);
    }
    None
}

/// Copies of all accounts.
pub fn duplicate_all<T: ImAccount>(accounts: &Vec<T>) -> (r: Vec<T>)
    ensures
        views(r@) == views(accounts@),
{
    let mut r: Vec<T> = Vec::new();
    let mut i: usize = 0;
    while i < accounts.len()
        invariant
            i <= accounts@.len(),
            views(r@) =~= views(accounts@).take(i as int),
        decreases accounts@.len() - i,
    {
        let ghost before = r@;
        r.push(accounts[i].duplicate());
        assert(views(r@) =~= views(before).push(accounts@[i as int]@));
        i += 1;
    }
    assert(views(accounts@).take(accounts@.len() as int) =~= views(accounts@));
    r
}

/// The listed accounts, or else the legacy account when it is configured.
pub open spec fn effective_views<T: ImAccount>(s: Seq<T::V>, legacy: T::V, legacy_configured: bool) -> Seq<T::V> {
    if s.len() > 0 {
        s
    } else if legacy_configured {
        seq![legacy]
    } else {
        Seq::empty()
    }
}

/// `effective_accounts`: `legacy_configured` is what the platform's
/// `is_configured` says of the legacy account.
pub fn effective_accounts<T: ImAccount>(accounts: &Vec<T>, legacy: &T, legacy_configured: bool) -> (r: Vec<T>)
    ensures
        views(r@) == effective_views::<T>(views(accounts@), legacy@, legacy_configured),
{
    if accounts.len() > 0 {
        duplicate_all(accounts)
    } else if legacy_configured {
        let r = vec![legacy.duplicate()];
        assert(views(r@) =~= seq![legacy@]);
        r
    } else {
        let r: Vec<T> = Vec::new();
        assert(views(r@) =~= Seq::<T::V>::empty());
        r
    }
}

/// `upsert_account`: replaces the first account with the same trimmed id,
/// or appends.
pub fn upsert_account<T: ImAccount>(accounts: &mut Vec<T>, account: T)
    ensures
        views(final(accounts)@) == match first_match::<T>(views(old(accounts)@), trim(T::id_in(account@))) {
            Some(i) => views(old(accounts)@).update(i, account@),
            None => views(old(accounts)@).push(account@),
        },
{
    let id = trimmed_id(&account);
    let ghost av = account@;
    match position_by_id(accounts, &id) {
        Some(i) => {
            let ghost before = accounts@;
            accounts.set(i, account);
            assert(views(accounts@) =~= views(before).update(i as int, av));
        },
        None => {
            let ghost before = accounts@;
            accounts.push(account);
            assert(views(accounts@) =~= views(before).push(av));
        },
    }
}

/// `remove_account`: drops every account whose trimmed id is `account_id`
/// and tells whether any was dropped.
pub fn remove_account<T: ImAccount>(accounts: &mut Vec<T>, account_id: &String) -> (r: bool)
    ensures
        views(final(accounts)@) == without_id::<T>(views(old(accounts)@), account_id@),
        r == (final(accounts)@.len() != old(accounts)@.len()),
{
    let mut kept: Vec<T> = Vec::new();
    let before = accounts.len();
    let ghost old_v = views(accounts@);
    let mut taken: Vec<T> = Vec::new();
    std::mem::swap(&mut taken, accounts);
    let mut i: usize = 0;
    while i < taken.len()
        invariant
            i <= taken@.len(),
            views(taken@) == old_v,
            views(kept@) == without_id::<T>(old_v.take(i as int), account_id@),
        decreases taken@.len() - i,
    {
        let t = trimmed_id(&taken[i]);
        assert(old_v.take(i + 1).drop_last() =~= old_v.take(i as int));
        assert(old_v.take(i + 1).last() == taken@[i as int]@);
        if t != *account_id {
            let ghost b = kept@;
            kept.push(taken[i].duplicate());
            assert(views(kept@) =~= views(b).push(taken@[i as int]@));
        }
        i += 1;
    }
    assert(old_v.take(taken@.len() as int) =~= old_v);
    *accounts = kept;
    proof {
        assert(accounts@.len() == views(accounts@).len());
    }
    accounts.len() != before
}

/// `set_account_enabled`: sets the flag on the first account whose trimmed
/// id is `account_id`.
pub fn set_account_enabled<T: ImAccount>(accounts: &mut Vec<T>, account_id: &String, enabled: bool) -> (r: bool)
    ensures
        match first_match::<T>(views(old(accounts)@), account_id@) {
            Some(i) => r && views(final(accounts)@) == views(old(accounts)@).update(
                i,
                T::with_enabled(views(old(accounts)@)[i], enabled),
            ),
            None => !r && views(final(accounts)@) == views(old(accounts)@),
        },
{
    match position_by_id(accounts, account_id) {
        Some(i) => {
            let ghost before = accounts@;
            let mut a = accounts[i].duplicate();
            a.set_enabled(enabled);
            accounts.set(i, a);
            assert(views(accounts@) =~= views(before).update(
                i as int,
                T::with_enabled(views(before)[i as int], enabled),
            ));
            true
        },
        None => false,
    }
}

/// `find_account`: a copy of the first account whose trimmed id is the
/// trimmed `account_id`.
pub fn find_account<T: ImAccount>(accounts: &Vec<T>, account_id: &str) -> (r: Option<T>)
    ensures
        match first_match::<T>(views(accounts@), trim(account_id@)) {
            Some(i) => r matches Some(a) && a@ == views(accounts@)[i],
            None => r is None,
        },
{
    let id = trim_str(account_id);
    match position_by_id(accounts, &id) {
        Some(i) => Some(accounts[i].duplicate()),
        None => None,
    }
}

/// `non_empty`: the trimmed value, unless it is blank.
pub open spec fn non_empty_spec(value: Seq<char>) -> Option<Seq<char>> {
    if trim(value).len() > 0 {
        Some(trim(value))
    } else {
        None
    }
}

pub fn non_empty(value: &str) -> (r: Option<String>)
    ensures
        crate::tool_names::opt_view(r) == non_empty_spec(value@),
{
    let t = trim_str(value);
    if t.as_str().is_empty() {
        None
    } else {
        Some(t)
    }
}


pub open spec fn feishu_word() -> Seq<char> { seq!['f', 'e', 'i', 's', 'h', 'u'] }
pub open spec fn telegram_word() -> Seq<char> { seq!['t', 'e', 'l', 'e', 'g', 'r', 'a', 'm'] }
pub open spec fn wechat_word() -> Seq<char> { seq!['w', 'e', 'c', 'h', 'a', 't'] }
pub open spec fn wecom_word() -> Seq<char> { seq!['w', 'e', 'c', 'o', 'm'] }

/// Which platform list a lower-cased platform name selects.
fn platform_index(p: &[char]) -> (r: u8)
    ensures
        r == 0 <==> p@ == feishu_word(),
        r == 1 <==> p@ == telegram_word(),
        r == 2 <==> p@ == wechat_word(),
        r == 3 <==> p@ == wecom_word(),
        r <= 4,
{
    let f = vec!['f', 'e', 'i', 's', 'h', 'u'];
    let t = vec!['t', 'e', 'l', 'e', 'g', 'r', 'a', 'm'];
    let w = vec!['w', 'e', 'c', 'h', 'a', 't'];
    let c = vec!['w', 'e', 'c', 'o', 'm'];
    assert(f@ =~= feishu_word());
    assert(t@ =~= telegram_word());
    assert(w@ =~= wechat_word());
    assert(c@ =~= wecom_word());
    assert(feishu_word() != telegram_word());
    assert(feishu_word()[0] != wechat_word()[0]);
    assert(feishu_word() != wecom_word());
    assert(telegram_word() != wechat_word());
    assert(telegram_word() != wecom_word());
    assert(wechat_word()[3] != wecom_word()[3]);
    if eq_vec(p, &f) {
        0
    } else if eq_vec(p, &t) {
        1
    } else if eq_vec(p, &w) {
        2
    } else if eq_vec(p, &c) {
        3
    } else {
        4
    }
}

// ─── the whole configuration ───────────────────────────────────────────

/// The application configuration (without the AI gateway section, which
/// the application keeps alongside).
#[derive(Debug)]
pub struct AppConfig {
    pub bind: String,
    pub local_connection_mode: LocalConnectionMode,
    pub outbound_proxy: OutboundProxyConfig,
    pub language: Option<String>,
    pub theme: Option<String>,
    pub state_path: String,
    pub logging: LoggingConfig,
    pub feishu: FeishuConfig,
    pub telegram: TelegramConfig,
    pub wechat: WechatConfig,
    pub wecom: WecomConfig,
    pub feishu_accounts: Vec<FeishuConfig>,
    pub telegram_accounts: Vec<TelegramConfig>,
    pub wechat_accounts: Vec<WechatConfig>,
    pub wecom_accounts: Vec<WecomConfig>,
    pub bridge: BridgeConfig,
}

/// The settings outside the IM accounts are the same in both.
pub open spec fn other_settings_same(a: AppConfig, b: AppConfig) -> bool {
    &&& a.bind == b.bind
    &&& a.local_connection_mode == b.local_connection_mode
    &&& a.outbound_proxy == b.outbound_proxy
    &&& a.language == b.language
    &&& a.theme == b.theme
    &&& a.state_path == b.state_path
    &&& a.logging == b.logging
    &&& a.bridge == b.bridge
}

impl Default for AppConfig {
    fn default() -> (r: Self)
        ensures
            r.bind@ == DEFAULT_BIND@,
            r.local_connection_mode == LocalConnectionMode::Standard,
            r.state_path@ == "codexhub-state.json"@,
            r.language is None,
            r.theme is None,
            r.feishu_accounts@.len() == 0,
            r.telegram_accounts@.len() == 0,
            r.wechat_accounts@.len() == 0,
            r.wecom_accounts@.len() == 0,
            r.telegram.bot_token@.len() == 0,
            r.telegram.account_id@.len() == 0,
            r.telegram.allowed_chat_ids@.len() == 0,
            r.wecom.account_id@ == "wecom"@,
            r.bridge.account_id@ == "default"@,
    {
        AppConfig {
            bind: String::from_str(DEFAULT_BIND),
            local_connection_mode: LocalConnectionMode::Standard,
            outbound_proxy: OutboundProxyConfig { mode: OutboundProxyMode::System, url: String::new() },
            language: None,
            theme: None,
            state_path: String::from_str("codexhub-state.json"),
            logging: LoggingConfig::default_for_build(false),
            feishu: FeishuConfig::default(),
            telegram: TelegramConfig::default(),
            wechat: WechatConfig::default(),
            wecom: WecomConfig::default(),
            feishu_accounts: Vec::new(),
            telegram_accounts: Vec::new(),
            wechat_accounts: Vec::new(),
            wecom_accounts: Vec::new(),
            bridge: BridgeConfig::default(),
        }
    }
}

/// The legacy Feishu account as migrated into the list.
pub open spec fn migrated_feishu(v: FeishuModel, bridge_account_id: Seq<char>) -> FeishuModel {
    if trim(v.account_id).len() == 0 {
        FeishuModel {
            account_id: match non_empty_spec(bridge_account_id) {
                Some(id) => id,
                None => match non_empty_spec(v.app_id) {
                    Some(id) => id,
                    None => "default"@,
                },
            },
            ..v
        }
    } else {
        v
    }
}

pub open spec fn migrated_telegram(v: TelegramModel) -> TelegramModel {
    if trim(v.account_id).len() == 0 {
        TelegramModel { account_id: "telegram"@, ..v }
    } else {
        v
    }
}

pub open spec fn migrated_wechat(v: WechatModel) -> WechatModel {
    if trim(v.account_id).len() == 0 {
        WechatModel { account_id: "wechat"@, ..v }
    } else {
        v
    }
}

pub open spec fn migrated_wecom(v: WecomModel) -> WecomModel {
    if trim(v.account_id).len() == 0 {
        WecomModel { account_id: "wecom"@, ..v }
    } else {
        v
    }
}

/// An effective Feishu account gets its app id, or `default`, as its id.
pub open spec fn effective_feishu(v: FeishuModel) -> FeishuModel {
    if trim(v.account_id).len() == 0 {
        FeishuModel {
            account_id: match non_empty_spec(v.app_id) {
                Some(id) => id,
                None => "default"@,
            },
            ..v
        }
    } else {
        v
    }
}

/// The platform name, trimmed and lower-cased, is `name`.
pub open spec fn platform_is(platform: Seq<char>, name: Seq<char>) -> bool {
    lower(trim(platform)) == name
}

/// Whether a Telegram chat is allowed: already listed, bound as the first chat of
/// an empty list, or denied.
pub open spec fn chat_allow_result(allowed: Seq<Seq<char>>, chat_id: Seq<char>) -> TelegramChatAllowResult {
    if exists|i: int| 0 <= i < allowed.len() && trim(#[trigger] allowed[i]) == chat_id {
        TelegramChatAllowResult::Allowed
    } else if allowed.len() > 0 {
        TelegramChatAllowResult::Denied
    } else {
        TelegramChatAllowResult::Bound
    }
}

pub open spec fn chat_allow_list(allowed: Seq<Seq<char>>, chat_id: Seq<char>) -> Seq<Seq<char>> {
    if chat_allow_result(allowed, chat_id) == TelegramChatAllowResult::Bound {
        allowed.push(chat_id)
    } else {
        allowed
    }
}

/// A Telegram account is addressed by `account_id` (an empty id answers to `telegram`).
pub open spec fn telegram_addressed(v: TelegramModel, account_id: Seq<char>) -> bool {
    trim(v.account_id) == account_id || (trim(v.account_id).len() == 0 && account_id == "telegram"@)
}

pub open spec fn first_addressed(s: Seq<TelegramModel>, account_id: Seq<char>) -> Option<int>
    decreases s.len(),
{
    if s.len() == 0 {
        None
    } else if telegram_addressed(s[0], account_id) {
        Some(0)
    } else {
        match first_addressed(s.drop_first(), account_id) {
            Some(i) => Some(i + 1),
            None => None,
        }
    }
}

proof fn lemma_first_addressed(s: Seq<TelegramModel>, id: Seq<char>, k: int)
    requires
        0 <= k <= s.len(),
        forall|j: int| 0 <= j < k ==> !telegram_addressed(s[j], id),
        k < s.len() ==> telegram_addressed(s[k], id),
    ensures
        first_addressed(s, id) == if k < s.len() { Some(k) } else { None::<int> },
    decreases s.len(),
{
    if s.len() > 0 && k > 0 {
        let t = s.drop_first();
        assert forall|j: int| 0 <= j < k - 1 implies !telegram_addressed(t[j], id) by {
            assert(t[j] == s[j + 1]);
        }
        if k - 1 < t.len() {
            assert(t[k - 1] == s[k]);
        }
        lemma_first_addressed(t, id, k - 1);
    }
}

#[derive(Debug, Clone, Copy, PartialEq, Eq, Structural)]
pub enum TelegramChatAllowResult {
    Allowed,
    Bound,
    Denied,
    AccountNotFound,
}

impl TelegramChatAllowResult {
    pub fn should_save(self) -> (r: bool)
        ensures
            r == (self == TelegramChatAllowResult::Bound),
    {
        matches!(self, Self::Bound)
    }
}

/// `ensure_telegram_chat_id_on_account`: a listed chat is allowed, an empty
/// list binds the first chat, any other chat is denied.
pub fn ensure_telegram_chat_id_on_account(account: &mut TelegramConfig, chat_id: &str) -> (r: TelegramChatAllowResult)
    ensures
        r == chat_allow_result(old(account)@.allowed_chat_ids, chat_id@),
        final(account)@ == (TelegramModel {
            allowed_chat_ids: chat_allow_list(old(account)@.allowed_chat_ids, chat_id@),
            ..old(account)@
        }),
{
    let mut i: usize = 0;
    let target = String::from_str(chat_id);
    while i < account.allowed_chat_ids.len()
        invariant
            i <= account.allowed_chat_ids@.len(),
            account@ == old(account)@,
            target@ == chat_id@,
            forall|j: int| 0 <= j < i ==> trim(#[trigger] account@.allowed_chat_ids[j]) != chat_id@,
        decreases account.allowed_chat_ids@.len() - i,
    {
        let t = trim_str(account.allowed_chat_ids[i].as_str());
        if t == target {
            assert(account@.allowed_chat_ids[i as int] == account.allowed_chat_ids@[i as int]@);
            return TelegramChatAllowResult::Allowed;
        }
        i += 1;
    }
    assert(!(exists|j: int| 0 <= j < account@.allowed_chat_ids.len() && trim(#[trigger] account@.allowed_chat_ids[j]) == chat_id@));
    if account.allowed_chat_ids.len() > 0 {
        return TelegramChatAllowResult::Denied;
    }
    let ghost before = account.allowed_chat_ids@;
    account.allowed_chat_ids.push(target);
    assert(strs(account.allowed_chat_ids@) =~= strs(before).push(chat_id@));
    TelegramChatAllowResult::Bound
}

fn telegram_addressed_exec(a: &TelegramConfig, aid: &String, tg_word: &String) -> (r: bool)
    requires
        tg_word@ == "telegram"@,
    ensures
        r == telegram_addressed(a@, aid@),
{
    let id = trim_str(a.account_id.as_str());
    id == *aid || (id.as_str().is_empty() && *aid == *tg_word)
}

impl AppConfig {
    /// Restores the current default bind address over the legacy one and
    /// migrates legacy IM accounts; tells whether anything changed.
    pub fn apply_platform_defaults(&mut self) -> (changed: bool)
        ensures
            final(self).bind@ == if old(self).bind@ == LEGACY_DEFAULT_BIND@ {
                DEFAULT_BIND@
            } else {
                old(self).bind@
            },
            changed == (old(self).bind@ == LEGACY_DEFAULT_BIND@ || Self::migration_changes(*old(self))),
            views(final(self).feishu_accounts@) == Self::migrated_feishu_accounts(*old(self)),
            views(final(self).telegram_accounts@) == Self::migrated_telegram_accounts(*old(self)),
            views(final(self).wechat_accounts@) == Self::migrated_wechat_accounts(*old(self)),
            views(final(self).wecom_accounts@) == Self::migrated_wecom_accounts(*old(self)),
    {
        let mut changed = false;
        let bind = to_chars(self.bind.as_str());
        if eq_str(&bind, LEGACY_DEFAULT_BIND) {
            self.bind = String::from_str(DEFAULT_BIND);
            changed = true;
        }
        if self.migrate_legacy_im_accounts() {
            changed = true;
        }
        changed
    }

    pub open spec fn migration_changes(c: AppConfig) -> bool {
        ||| c.feishu_accounts@.len() == 0 && FeishuConfig::configured(c.feishu@)
        ||| c.telegram_accounts@.len() == 0 && TelegramConfig::configured(c.telegram@)
        ||| c.wechat_accounts@.len() == 0 && WechatConfig::configured(c.wechat@)
        ||| c.wecom_accounts@.len() == 0 && WecomConfig::configured(c.wecom@)
    }

    pub open spec fn migrated_feishu_accounts(c: AppConfig) -> Seq<FeishuModel> {
        if c.feishu_accounts@.len() == 0 && FeishuConfig::configured(c.feishu@) {
            seq![migrated_feishu(c.feishu@, c.bridge.account_id@)]
        } else {
            views(c.feishu_accounts@)
        }
    }

    pub open spec fn migrated_telegram_accounts(c: AppConfig) -> Seq<TelegramModel> {
        if c.telegram_accounts@.len() == 0 && TelegramConfig::configured(c.telegram@) {
            seq![migrated_telegram(c.telegram@)]
        } else {
            views(c.telegram_accounts@)
        }
    }

    pub open spec fn migrated_wechat_accounts(c: AppConfig) -> Seq<WechatModel> {
        if c.wechat_accounts@.len() == 0 && WechatConfig::configured(c.wechat@) {
            seq![migrated_wechat(c.wechat@)]
        } else {
            views(c.wechat_accounts@)
        }
    }

    pub open spec fn migrated_wecom_accounts(c: AppConfig) -> Seq<WecomModel> {
        if c.wecom_accounts@.len() == 0 && WecomConfig::configured(c.wecom@) {
            seq![migrated_wecom(c.wecom@)]
        } else {
            views(c.wecom_accounts@)
        }
    }

    /// Moves each configured legacy account into its empty account list.
    pub fn migrate_legacy_im_accounts(&mut self) -> (changed: bool)
        ensures
            changed == Self::migration_changes(*old(self)),
            views(final(self).feishu_accounts@) == Self::migrated_feishu_accounts(*old(self)),
            views(final(self).telegram_accounts@) == Self::migrated_telegram_accounts(*old(self)),
            views(final(self).wechat_accounts@) == Self::migrated_wechat_accounts(*old(self)),
            views(final(self).wecom_accounts@) == Self::migrated_wecom_accounts(*old(self)),
            final(self).bind == old(self).bind,
            final(self).bridge == old(self).bridge,
            other_settings_same(*old(self), *final(self)),
            final(self).feishu == old(self).feishu,
            final(self).telegram == old(self).telegram,
            final(self).wechat == old(self).wechat,
            final(self).wecom == old(self).wecom,
    {
        let mut changed = false;
        if self.feishu_accounts.len() == 0 && self.feishu.is_configured() {
            let mut account = self.feishu.clone();
            if trim_str(account.account_id.as_str()).as_str().is_empty() {
                account.account_id = match non_empty(self.bridge.account_id.as_str()) {
                    Some(id) => id,
                    None => match non_empty(account.app_id.as_str()) {
                        Some(id) => id,
                        None => String::from_str("default"),
                    },
                };
            }
            let ghost av = account@;
            self.feishu_accounts.push(account);
            assert(views(self.feishu_accounts@) =~= seq![av]);
            changed = true;
        }
        if self.telegram_accounts.len() == 0 && self.telegram.is_configured() {
            let mut account = self.telegram.clone();
            if trim_str(account.account_id.as_str()).as_str().is_empty() {
                account.account_id = String::from_str("telegram");
            }
            let ghost av = account@;
            self.telegram_accounts.push(account);
            assert(views(self.telegram_accounts@) =~= seq![av]);
            changed = true;
        }
        if self.wechat_accounts.len() == 0 && self.wechat.is_configured() {
            let mut account = self.wechat.clone();
            if trim_str(account.account_id.as_str()).as_str().is_empty() {
                account.account_id = String::from_str("wechat");
            }
            let ghost av = account@;
            self.wechat_accounts.push(account);
            assert(views(self.wechat_accounts@) =~= seq![av]);
            changed = true;
        }
        if self.wecom_accounts.len() == 0 && self.wecom.is_configured() {
            let mut account = self.wecom.clone();
            if trim_str(account.account_id.as_str()).as_str().is_empty() {
                account.account_id = String::from_str("wecom");
            }
            let ghost av = account@;
            self.wecom_accounts.push(account);
            assert(views(self.wecom_accounts@) =~= seq![av]);
            changed = true;
        }
        changed
    }

    pub fn effective_feishu_accounts(&self) -> (r: Vec<FeishuConfig>)
        ensures
            views(r@) == effective_views::<FeishuConfig>(
                views(self.feishu_accounts@),
                self.feishu@,
                FeishuConfig::configured(self.feishu@),
            ).map_values(|v: FeishuModel| effective_feishu(v)),
    {
        let configured = self.feishu.is_configured();
        let base = effective_accounts(&self.feishu_accounts, &self.feishu, configured);
        let ghost bv = views(base@);
        let mut out: Vec<FeishuConfig> = Vec::new();
        let mut i: usize = 0;
        while i < base.len()
            invariant
                i <= base@.len(),
                bv == views(base@),
                views(out@) =~= bv.map_values(|v: FeishuModel| effective_feishu(v)).take(i as int),
            decreases base@.len() - i,
        {
            let mut account = base[i].clone();
            if trim_str(account.account_id.as_str()).as_str().is_empty() {
                account.account_id = match non_empty(account.app_id.as_str()) {
                    Some(id) => id,
                    None => String::from_str("default"),
                };
            }
            let ghost b = out@;
            out.push(account);
            assert(views(out@) =~= views(b).push(effective_feishu(bv[i as int])));
            i += 1;
        }
        out
    }

    pub fn feishu_account(&self, account_id: &str) -> (r: Option<FeishuConfig>)
        ensures
            ({
                let s = effective_views::<FeishuConfig>(
                    views(self.feishu_accounts@),
                    self.feishu@,
                    FeishuConfig::configured(self.feishu@),
                ).map_values(|v: FeishuModel| effective_feishu(v));
                match first_match::<FeishuConfig>(s, trim(account_id@)) {
                    Some(i) => r matches Some(a) && a@ == s[i],
                    None => r is None,
                }
            }),
    {
        let accounts = self.effective_feishu_accounts();
        find_account(&accounts, account_id)
    }

    pub fn effective_telegram_accounts(&self) -> (r: Vec<TelegramConfig>)
        ensures
            views(r@) == effective_views::<TelegramConfig>(
                views(self.telegram_accounts@),
                self.telegram@,
                TelegramConfig::configured(self.telegram@),
            ).map_values(|v: TelegramModel| migrated_telegram(v)),
    {
        let configured = self.telegram.is_configured();
        let base = effective_accounts(&self.telegram_accounts, &self.telegram, configured);
        let ghost bv = views(base@);
        let mut out: Vec<TelegramConfig> = Vec::new();
        let mut i: usize = 0;
        while i < base.len()
            invariant
                i <= base@.len(),
                bv == views(base@),
                views(out@) =~= bv.map_values(|v: TelegramModel| migrated_telegram(v)).take(i as int),
            decreases base@.len() - i,
        {
            let mut account = base[i].clone();
            if trim_str(account.account_id.as_str()).as_str().is_empty() {
                account.account_id = String::from_str("telegram");
            }
            let ghost b = out@;
            out.push(account);
            assert(views(out@) =~= views(b).push(migrated_telegram(bv[i as int])));
            i += 1;
        }
        out
    }

    pub fn telegram_account(&self, account_id: &str) -> (r: Option<TelegramConfig>)
        ensures
            ({
                let s = effective_views::<TelegramConfig>(
                    views(self.telegram_accounts@),
                    self.telegram@,
                    TelegramConfig::configured(self.telegram@),
                ).map_values(|v: TelegramModel| migrated_telegram(v));
                match first_match::<TelegramConfig>(s, trim(account_id@)) {
                    Some(i) => r matches Some(a) && a@ == s[i],
                    None => r is None,
                }
            }),
    {
        let accounts = self.effective_telegram_accounts();
        find_account(&accounts, account_id)
    }

    pub fn effective_wechat_accounts(&self) -> (r: Vec<WechatConfig>)
        ensures
            views(r@) == effective_views::<WechatConfig>(
                views(self.wechat_accounts@),
                self.wechat@,
                WechatConfig::configured(self.wechat@),
            ).map_values(|v: WechatModel| migrated_wechat(v)),
    {
        let configured = self.wechat.is_configured();
        let base = effective_accounts(&self.wechat_accounts, &self.wechat, configured);
        let ghost bv = views(base@);
        let mut out: Vec<WechatConfig> = Vec::new();
        let mut i: usize = 0;
        while i < base.len()
            invariant
                i <= base@.len(),
                bv == views(base@),
                views(out@) =~= bv.map_values(|v: WechatModel| migrated_wechat(v)).take(i as int),
            decreases base@.len() - i,
        {
            let mut account = base[i].clone();
            if trim_str(account.account_id.as_str()).as_str().is_empty() {
                account.account_id = String::from_str("wechat");
            }
            let ghost b = out@;
            out.push(account);
            assert(views(out@) =~= views(b).push(migrated_wechat(bv[i as int])));
            i += 1;
        }
        out
    }

    pub fn wechat_account(&self, account_id: &str) -> (r: Option<WechatConfig>)
        ensures
            ({
                let s = effective_views::<WechatConfig>(
                    views(self.wechat_accounts@),
                    self.wechat@,
                    WechatConfig::configured(self.wechat@),
                ).map_values(|v: WechatModel| migrated_wechat(v));
                match first_match::<WechatConfig>(s, trim(account_id@)) {
                    Some(i) => r matches Some(a) && a@ == s[i],
                    None => r is None,
                }
            }),
    {
        let accounts = self.effective_wechat_accounts();
        find_account(&accounts, account_id)
    }

    pub fn effective_wecom_accounts(&self) -> (r: Vec<WecomConfig>)
        ensures
            views(r@) == effective_views::<WecomConfig>(
                views(self.wecom_accounts@),
                self.wecom@,
                WecomConfig::configured(self.wecom@),
            ).map_values(|v: WecomModel| migrated_wecom(v)),
    {
        let configured = self.wecom.is_configured();
        let base = effective_accounts(&self.wecom_accounts, &self.wecom, configured);
        let ghost bv = views(base@);
        let mut out: Vec<WecomConfig> = Vec::new();
        let mut i: usize = 0;
        while i < base.len()
            invariant
                i <= base@.len(),
                bv == views(base@),
                views(out@) =~= bv.map_values(|v: WecomModel| migrated_wecom(v)).take(i as int),
            decreases base@.len() - i,
        {
            let mut account = base[i].clone();
            if trim_str(account.account_id.as_str()).as_str().is_empty() {
                account.account_id = String::from_str("wecom");
            }
            let ghost b = out@;
            out.push(account);
            assert(views(out@) =~= views(b).push(migrated_wecom(bv[i as int])));
            i += 1;
        }
        out
    }

    pub fn wecom_account(&self, account_id: &str) -> (r: Option<WecomConfig>)
        ensures
            ({
                let s = effective_views::<WecomConfig>(
                    views(self.wecom_accounts@),
                    self.wecom@,
                    WecomConfig::configured(self.wecom@),
                ).map_values(|v: WecomModel| migrated_wecom(v));
                match first_match::<WecomConfig>(s, trim(account_id@)) {
                    Some(i) => r matches Some(a) && a@ == s[i],
                    None => r is None,
                }
            }),
    {
        let accounts = self.effective_wecom_accounts();
        find_account(&accounts, account_id)
    }

    pub fn upsert_feishu_account(&mut self, account: FeishuConfig)
        ensures
            views(final(self).feishu_accounts@) == match first_match::<FeishuConfig>(
                views(old(self).feishu_accounts@),
                trim(account@.account_id),
            ) {
                Some(i) => views(old(self).feishu_accounts@).update(i, account@),
                None => views(old(self).feishu_accounts@).push(account@),
            },
    {
        upsert_account(&mut self.feishu_accounts, account);
    }

    pub fn upsert_telegram_account(&mut self, account: TelegramConfig)
        ensures
            views(final(self).telegram_accounts@) == match first_match::<TelegramConfig>(
                views(old(self).telegram_accounts@),
                trim(account@.account_id),
            ) {
                Some(i) => views(old(self).telegram_accounts@).update(i, account@),
                None => views(old(self).telegram_accounts@).push(account@),
            },
    {
        upsert_account(&mut self.telegram_accounts, account);
    }

    pub fn upsert_wechat_account(&mut self, account: WechatConfig)
        ensures
            views(final(self).wechat_accounts@) == match first_match::<WechatConfig>(
                views(old(self).wechat_accounts@),
                trim(account@.account_id),
            ) {
                Some(i) => views(old(self).wechat_accounts@).update(i, account@),
                None => views(old(self).wechat_accounts@).push(account@),
            },
    {
        upsert_account(&mut self.wechat_accounts, account);
    }

    pub fn upsert_wecom_account(&mut self, account: WecomConfig)
        ensures
            views(final(self).wecom_accounts@) == match first_match::<WecomConfig>(
                views(old(self).wecom_accounts@),
                trim(account@.account_id),
            ) {
                Some(i) => views(old(self).wecom_accounts@).update(i, account@),
                None => views(old(self).wecom_accounts@).push(account@),
            },
    {
        upsert_account(&mut self.wecom_accounts, account);
    }

    /// Removes the accounts with the given id from the named platform's
    /// list; tells whether any was removed.
    pub fn remove_im_account(&mut self, platform: &str, account_id: &str) -> (r: bool)
        ensures
            ({
                let id = trim(account_id@);
                let p = platform@;
                let o = *old(self);
                let f = *final(self);
                &&& id.len() == 0 ==> !r
                &&& other_settings_same(o, f)
                &&& f.feishu == o.feishu && f.telegram == o.telegram && f.wechat == o.wechat && f.wecom == o.wecom
                &&& views(f.feishu_accounts@) == if id.len() > 0 && platform_is(p, feishu_word()) {
                    without_id::<FeishuConfig>(views(o.feishu_accounts@), id)
                } else {
                    views(o.feishu_accounts@)
                }
                &&& views(f.telegram_accounts@) == if id.len() > 0 && platform_is(p, telegram_word()) {
                    without_id::<TelegramConfig>(views(o.telegram_accounts@), id)
                } else {
                    views(o.telegram_accounts@)
                }
                &&& views(f.wechat_accounts@) == if id.len() > 0 && platform_is(p, wechat_word()) {
                    without_id::<WechatConfig>(views(o.wechat_accounts@), id)
                } else {
                    views(o.wechat_accounts@)
                }
                &&& views(f.wecom_accounts@) == if id.len() > 0 && platform_is(p, wecom_word()) {
                    without_id::<WecomConfig>(views(o.wecom_accounts@), id)
                } else {
                    views(o.wecom_accounts@)
                }
                &&& r == (id.len() > 0 && (
                    (platform_is(p, feishu_word()) && f.feishu_accounts@.len() != o.feishu_accounts@.len())
                    || (platform_is(p, telegram_word()) && f.telegram_accounts@.len() != o.telegram_accounts@.len())
                    || (platform_is(p, wechat_word()) && f.wechat_accounts@.len() != o.wechat_accounts@.len())
                    || (platform_is(p, wecom_word()) && f.wecom_accounts@.len() != o.wecom_accounts@.len())))
            }),
    {
        let id = trim_str(account_id);
        if id.as_str().is_empty() {
            return false;
        }
        let pv = to_chars(platform);
        let pt = trim_vec(&pv);
        let p = lower_vec(&pt);
        let which = platform_index(&p);
        if which == 0 {
            remove_account(&mut self.feishu_accounts, &id)
        } else if which == 1 {
            remove_account(&mut self.telegram_accounts, &id)
        } else if which == 2 {
            remove_account(&mut self.wechat_accounts, &id)
        } else if which == 3 {
            remove_account(&mut self.wecom_accounts, &id)
        } else {
            false
        }
    }

    /// Sets the enabled flag of the first account with the given id on the
    /// named platform; tells whether such an account exists.
    pub fn set_im_account_enabled(&mut self, platform: &str, account_id: &str, enabled: bool) -> (r: bool)
        ensures
            ({
                let id = trim(account_id@);
                let p = platform@;
                let o = *old(self);
                let f = *final(self);
                &&& views(f.feishu_accounts@) == if id.len() > 0 && platform_is(p, feishu_word()) {
                    match first_match::<FeishuConfig>(views(o.feishu_accounts@), id) {
                        Some(i) => views(o.feishu_accounts@).update(i, FeishuConfig::with_enabled(views(o.feishu_accounts@)[i], enabled)),
                        None => views(o.feishu_accounts@),
                    }
                } else {
                    views(o.feishu_accounts@)
                }
                &&& views(f.telegram_accounts@) == if id.len() > 0 && platform_is(p, telegram_word()) {
                    match first_match::<TelegramConfig>(views(o.telegram_accounts@), id) {
                        Some(i) => views(o.telegram_accounts@).update(i, TelegramConfig::with_enabled(views(o.telegram_accounts@)[i], enabled)),
                        None => views(o.telegram_accounts@),
                    }
                } else {
                    views(o.telegram_accounts@)
                }
                &&& views(f.wechat_accounts@) == if id.len() > 0 && platform_is(p, wechat_word()) {
                    match first_match::<WechatConfig>(views(o.wechat_accounts@), id) {
                        Some(i) => views(o.wechat_accounts@).update(i, WechatConfig::with_enabled(views(o.wechat_accounts@)[i], enabled)),
                        None => views(o.wechat_accounts@),
                    }
                } else {
                    views(o.wechat_accounts@)
                }
                &&& views(f.wecom_accounts@) == if id.len() > 0 && platform_is(p, wecom_word()) {
                    match first_match::<WecomConfig>(views(o.wecom_accounts@), id) {
                        Some(i) => views(o.wecom_accounts@).update(i, WecomConfig::with_enabled(views(o.wecom_accounts@)[i], enabled)),
                        None => views(o.wecom_accounts@),
                    }
                } else {
                    views(o.wecom_accounts@)
                }
                &&& r == (id.len() > 0 && (
                    (platform_is(p, feishu_word()) && first_match::<FeishuConfig>(views(o.feishu_accounts@), id) is Some)
                    || (platform_is(p, telegram_word()) && first_match::<TelegramConfig>(views(o.telegram_accounts@), id) is Some)
                    || (platform_is(p, wechat_word()) && first_match::<WechatConfig>(views(o.wechat_accounts@), id) is Some)
                    || (platform_is(p, wecom_word()) && first_match::<WecomConfig>(views(o.wecom_accounts@), id) is Some)))
            }),
    {
        let id = trim_str(account_id);
        if id.as_str().is_empty() {
            return false;
        }
        let pv = to_chars(platform);
        let pt = trim_vec(&pv);
        let p = lower_vec(&pt);
        let which = platform_index(&p);
        if which == 0 {
            set_account_enabled(&mut self.feishu_accounts, &id, enabled)
        } else if which == 1 {
            set_account_enabled(&mut self.telegram_accounts, &id, enabled)
        } else if which == 2 {
            set_account_enabled(&mut self.wechat_accounts, &id, enabled)
        } else if which == 3 {
            set_account_enabled(&mut self.wecom_accounts, &id, enabled)
        } else {
            false
        }
    }

    /// Decides whether a Telegram chat may talk to the account: a listed chat
    /// is allowed, an account with an empty list binds its first chat, any
    /// other chat is denied. Legacy accounts are migrated first.
    pub fn ensure_telegram_allowed_chat_id(&mut self, account_id: &str, chat_id: &str) -> (r: TelegramChatAllowResult)
        ensures
            ({
                let aid = trim(account_id@);
                let cid = trim(chat_id@);
                let o = *old(self);
                let f = *final(self);
                let tg = Self::migrated_telegram_accounts(o);
                let legacy = o.telegram@;
                if aid.len() == 0 || cid.len() == 0 {
                    &&& r == TelegramChatAllowResult::AccountNotFound
                    &&& f == o
                } else {
                    &&& other_settings_same(o, f)
                    &&& f.feishu == o.feishu && f.wechat == o.wechat && f.wecom == o.wecom
                    &&& views(f.feishu_accounts@) == Self::migrated_feishu_accounts(o)
                    &&& views(f.wechat_accounts@) == Self::migrated_wechat_accounts(o)
                    &&& views(f.wecom_accounts@) == Self::migrated_wecom_accounts(o)
                    &&& match first_addressed(tg, aid) {
                        Some(i) => {
                            let allowed = chat_allow_list(tg[i].allowed_chat_ids, cid);
                            &&& r == chat_allow_result(tg[i].allowed_chat_ids, cid)
                            &&& views(f.telegram_accounts@) == tg.update(i, TelegramModel { allowed_chat_ids: allowed, ..tg[i] })
                            &&& f.telegram@ == if telegram_addressed(legacy, aid) {
                                TelegramModel { allowed_chat_ids: allowed, ..legacy }
                            } else {
                                legacy
                            }
                        },
                        None => {
                            &&& views(f.telegram_accounts@) == tg
                            &&& if telegram_addressed(legacy, aid) {
                                &&& r == chat_allow_result(legacy.allowed_chat_ids, cid)
                                &&& f.telegram@ == TelegramModel {
                                    allowed_chat_ids: chat_allow_list(legacy.allowed_chat_ids, cid),
                                    ..legacy
                                }
                            } else {
                                &&& r == TelegramChatAllowResult::AccountNotFound
                                &&& f.telegram@ == legacy
                            }
                        },
                    }
                }
            }),
    {
        let aid = trim_str(account_id);
        let cid = trim_str(chat_id);
        if aid.as_str().is_empty() || cid.as_str().is_empty() {
            return TelegramChatAllowResult::AccountNotFound;
        }
        self.migrate_legacy_im_accounts();
        let tg_word = String::from_str("telegram");
        proof {
            reveal_strlit("telegram");
        }
        let legacy_id = trim_str(self.telegram.account_id.as_str());
        let legacy_addressed = legacy_id == aid || (legacy_id.as_str().is_empty() && aid == tg_word);
        let mut i: usize = 0;
        while i < self.telegram_accounts.len() && !telegram_addressed_exec(&self.telegram_accounts[i], &aid, &tg_word)
            invariant
                i <= self.telegram_accounts@.len(),
                tg_word@ == "telegram"@,
                forall|j: int| 0 <= j < i ==> !telegram_addressed(#[trigger] views(self.telegram_accounts@)[j], aid@),
            decreases self.telegram_accounts@.len() - i,
        {
            i += 1;
        }
        let found: Option<usize> = if i < self.telegram_accounts.len() {
            Some(i)
        } else {
            None
        };
        proof {
            lemma_first_addressed(views(self.telegram_accounts@), aid@, i as int);
        }
        match found {
            Some(i) => {
                let mut account = self.telegram_accounts[i].clone();
                let result = ensure_telegram_chat_id_on_account(&mut account, cid.as_str());
                let ghost before = self.telegram_accounts@;
                let ghost av = account@;
                self.telegram_accounts.set(i, account);
                assert(views(self.telegram_accounts@) =~= views(before).update(i as int, av));
                if legacy_addressed {
                    self.telegram.allowed_chat_ids = clone_strs(&self.telegram_accounts[i].allowed_chat_ids);
                }
                result
            },
            None => {
                if legacy_addressed {
                    return ensure_telegram_chat_id_on_account(&mut self.telegram, cid.as_str());
                }
                TelegramChatAllowResult::AccountNotFound
            },
        }
    }
}

// ─── laws ──────────────────────────────────────────────────────────────

/// After an upsert, looking the account up by its trimmed id finds exactly
/// the upserted account.
pub proof fn law_upsert_then_find<T: ImAccount>(s: Seq<T::V>, a: T::V)
    ensures
        ({
            let id = trim(T::id_in(a));
            let s2 = match first_match::<T>(s, id) {
                Some(i) => s.update(i, a),
                None => s.push(a),
            };
            first_match::<T>(s2, id) matches Some(j) && s2[j] == a
        }),
{
    let id = trim(T::id_in(a));
    lemma_first_match_props::<T>(s, id);
    match first_match::<T>(s, id) {
        Some(i) => {
            let s2 = s.update(i, a);
            assert forall|j: int| 0 <= j < i implies !id_matches::<T>(s2[j], id) by {
                assert(s2[j] == s[j]);
            }
            lemma_first_match::<T>(s2, id, i);
        },
        None => {
            let s2 = s.push(a);
            assert forall|j: int| 0 <= j < s.len() implies !id_matches::<T>(s2[j], id) by {
                assert(s2[j] == s[j]);
            }
            lemma_first_match::<T>(s2, id, s.len() as int);
        },
    }
}

/// `first_match` finds the least matching position, or there is none.
pub proof fn lemma_first_match_props<T: ImAccount>(s: Seq<T::V>, id: Seq<char>)
    ensures
        match first_match::<T>(s, id) {
            Some(i) => 0 <= i < s.len() && id_matches::<T>(s[i], id) && forall|j: int|
                0 <= j < i ==> !id_matches::<T>(s[j], id),
            None => forall|j: int| 0 <= j < s.len() ==> !id_matches::<T>(s[j], id),
        },
    decreases s.len(),
{
    if s.len() > 0 {
        let t = s.drop_first();
        lemma_first_match_props::<T>(t, id);
        assert forall|j: int| 0 < j < s.len() implies s[j] == t[j - 1] by {}
    }
}

/// After removing an id, no account with that id is left.
pub proof fn law_remove_then_find_nothing<T: ImAccount>(s: Seq<T::V>, id: Seq<char>)
    ensures
        first_match::<T>(without_id::<T>(s, id), id) is None,
    decreases s.len(),
{
    if s.len() > 0 {
        law_remove_then_find_nothing::<T>(s.drop_last(), id);
        let r = without_id::<T>(s.drop_last(), id);
        lemma_first_match_props::<T>(r, id);
        if !id_matches::<T>(s.last(), id) {
            let r2 = r.push(s.last());
            assert forall|j: int| 0 <= j < r2.len() implies !id_matches::<T>(r2[j], id) by {
                if j < r.len() {
                    assert(r2[j] == r[j]);
                }
            }
            lemma_first_match::<T>(r2, id, r2.len() as int);
        }
    }
}

// ─── the remote-control address ────────────────────────────────────────

/// A listening address as parsed from `bind`: whether its IP is a loopback
/// or unspecified one, the IP's text, and the port.
pub struct BindAddress {
    pub local: bool,
    pub ip: String,
    pub port: u16,
}

/// `host:port` of the remote-control server: a local IP is named by the
/// connection mode, an IPv6 address goes in brackets, and a `bind` that is
/// no socket address is taken as it stands.
pub open spec fn host_port(bind: Seq<char>, address: Option<(bool, Seq<char>, u16)>, mode: LocalConnectionMode) -> Seq<
    char,
> {
    match address {
        Some((local, ip, port)) => {
            let host = if local {
                match mode {
                    LocalConnectionMode::Standard => "127.0.0.1"@,
                    LocalConnectionMode::VpnCompatible => "localhost"@,
                }
            } else if contains(ip, ":"@) {
                "["@ + ip + "]"@
            } else {
                ip
            };
            host + ":"@ + decimal(port as nat)
        },
        None => bind,
    }
}

pub open spec fn address_view(a: Option<BindAddress>) -> Option<(bool, Seq<char>, u16)> {
    match a {
        Some(b) => Some((b.local, b.ip@, b.port)),
        None => None,
    }
}

/// The base URL of the remote-control API.
pub open spec fn base_url(bind: Seq<char>, address: Option<(bool, Seq<char>, u16)>, mode: LocalConnectionMode) -> Seq<
    char,
> {
    "http://"@ + host_port(bind, address, mode) + "/backend-api"@
}

impl AppConfig {
    /// `remote_control_base_url_for_mode`, with `bind` already parsed as a
    /// socket address (`None` where it is none).
    pub fn remote_control_base_url_for_mode(&self, address: &Option<BindAddress>, mode: LocalConnectionMode) -> (r:
        String)
        ensures
            r@ == base_url(self.bind@, address_view(*address), mode),
    {
        let mut out = to_chars("http://");
        match address {
            Some(a) => {
                if a.local {
                    match mode {
                        LocalConnectionMode::Standard => append_str(&mut out, "127.0.0.1"),
                        LocalConnectionMode::VpnCompatible => append_str(&mut out, "localhost"),
                    }
                } else {
                    let ip = to_chars(a.ip.as_str());
                    if str_contains(&ip, ":") {
                        append_str(&mut out, "[");
                        append_vec(&mut out, &ip);
                        append_str(&mut out, "]");
                    } else {
                        append_vec(&mut out, &ip);
                    }
                }
                append_str(&mut out, ":");
                let port = decimal_u64(a.port as u64);
                append_vec(&mut out, &port);
            },
            None => append_str(&mut out, self.bind.as_str()),
        }
        append_str(&mut out, "/backend-api");
        proof {
            let hp = host_port(self.bind@, address_view(*address), mode);
            assert(out@ =~= "http://"@ + hp + "/backend-api"@);
        }
        from_chars(&out)
    }

    /// `remote_control_base_url`: the base URL for the configured mode.
    pub fn remote_control_base_url(&self, address: &Option<BindAddress>) -> (r: String)
        ensures
            r@ == base_url(self.bind@, address_view(*address), self.local_connection_mode),
    {
        self.remote_control_base_url_for_mode(address, self.local_connection_mode)
    }

    /// `local_listen_port`: the port of `bind` where it is a socket address.
    pub fn local_listen_port(&self, address: &Option<BindAddress>) -> (r: Option<u16>)
        ensures
            r == match address_view(*address) {
                Some(a) => Some(a.2),
                None => None::<u16>,
            },
    {
        match address {
            Some(a) => Some(a.port),
            None => None,
        }
    }
}

/// A Telegram account with an empty allow-list binds the first chat; that
/// chat is then allowed and every other chat is denied.
pub proof fn law_first_chat_is_bound_then_exclusive(first: Seq<char>, other: Seq<char>)
    requires
        trim(first) == first,
        first != other,
    ensures
        chat_allow_result(Seq::empty(), first) == TelegramChatAllowResult::Bound,
        chat_allow_result(chat_allow_list(Seq::empty(), first), first) == TelegramChatAllowResult::Allowed,
        chat_allow_result(chat_allow_list(Seq::empty(), first), other) == TelegramChatAllowResult::Denied,
{
    let l = chat_allow_list(Seq::empty(), first);
    assert(l =~= seq![first]);
    assert(trim(l[0]) == first);
}

/// Migration moves a configured legacy account only into an empty list, so
/// migrating twice is migrating once.
pub proof fn law_migration_is_idempotent<V>(list: Seq<V>, legacy_configured: bool, migrated: V)
    ensures
        ({
            let once = if list.len() == 0 && legacy_configured { seq![migrated] } else { list };
            let twice = if once.len() == 0 && legacy_configured { seq![migrated] } else { once };
            twice == once
        }),
{
}


/// Migration settles: on a configuration that one migration produced, a
/// second one changes nothing and keeps every account list as it is.
pub proof fn law_second_migration_changes_nothing(o: AppConfig, f: AppConfig)
    requires
        views(f.feishu_accounts@) == AppConfig::migrated_feishu_accounts(o),
        views(f.telegram_accounts@) == AppConfig::migrated_telegram_accounts(o),
        views(f.wechat_accounts@) == AppConfig::migrated_wechat_accounts(o),
        views(f.wecom_accounts@) == AppConfig::migrated_wecom_accounts(o),
        f.feishu == o.feishu,
        f.telegram == o.telegram,
        f.wechat == o.wechat,
        f.wecom == o.wecom,
        f.bridge == o.bridge,
    ensures
        !AppConfig::migration_changes(f),
        AppConfig::migrated_feishu_accounts(f) == views(f.feishu_accounts@),
        AppConfig::migrated_telegram_accounts(f) == views(f.telegram_accounts@),
        AppConfig::migrated_wechat_accounts(f) == views(f.wechat_accounts@),
        AppConfig::migrated_wecom_accounts(f) == views(f.wecom_accounts@),
{
    assert(views(f.feishu_accounts@).len() == f.feishu_accounts@.len());
    assert(views(f.telegram_accounts@).len() == f.telegram_accounts@.len());
    assert(views(f.wechat_accounts@).len() == f.wechat_accounts@.len());
    assert(views(f.wecom_accounts@).len() == f.wecom_accounts@.len());
    assert(views(o.feishu_accounts@).len() == o.feishu_accounts@.len());
    assert(views(o.telegram_accounts@).len() == o.telegram_accounts@.len());
    assert(views(o.wechat_accounts@).len() == o.wechat_accounts@.len());
    assert(views(o.wecom_accounts@).len() == o.wecom_accounts@.len());
}

} // verus!
