//! Saved Codex accounts: reading an account file, deciding how an account
//! authenticates, the view the panel shows, and the account listing.
use crate::json::{
    de_i32, de_i64, de_opt_bool, de_opt_i64, de_opt_string, de_string, item_bool, item_i64,
    item_u64, obj_get, JsonValue, JsonView,
};
use crate::crypto::rfc3339_micros_utc;
use crate::text::{
    blank, chars_of, concat2, copy_str, eq_ignore_ascii_case, eq_ignore_case, is_blank, str_eq, trim,
    trim_bounds, trim_str,
};
use vstd::prelude::*;

verus! {

// ---------------------------------------------------------------------
// Types and their models
// ---------------------------------------------------------------------

/// The account index that Cockpit Tools keeps.
#[derive(Debug, Clone)]
pub struct CodexAccountIndex {
    pub version: Option<String>,
    pub accounts: Vec<CodexAccountSummary>,
    pub current_account_id: Option<String>,
}

/// One account as the index lists it.
#[derive(Debug, Clone)]
pub struct CodexAccountSummary {
    pub id: String,
    pub email: String,
    pub plan_type: Option<String>,
    pub subscription_active_until: Option<String>,
    pub created_at: i64,
    pub last_used: i64,
}

/// OAuth tokens saved for an account.
#[derive(Debug, Clone)]
pub struct CodexTokens {
    pub id_token: String,
    pub access_token: String,
    pub refresh_token: Option<String>,
}

/// Usage quota saved for an account.
#[derive(Debug)]
pub struct CodexQuota {
    pub hourly_percentage: i32,
    pub hourly_reset_time: Option<i64>,
    pub hourly_window_minutes: Option<i64>,
    pub hourly_window_present: Option<bool>,
    pub weekly_percentage: i32,
    pub weekly_reset_time: Option<i64>,
    pub weekly_window_minutes: Option<i64>,
    pub weekly_window_present: Option<bool>,
    pub raw_data: Option<JsonValue>,
}

/// The last quota refresh error saved for an account.
#[derive(Debug, Clone)]
pub struct CodexQuotaErrorInfo {
    pub code: Option<String>,
    pub message: String,
    pub timestamp: i64,
}

/// An account file, read.
#[derive(Debug)]
pub struct CodexAccountDetail {
    pub raw: JsonValue,
    pub id: String,
    pub email: String,
    pub auth_mode: String,
    pub openai_api_key: Option<String>,
    pub api_base_url: Option<String>,
    pub api_provider_mode: Option<String>,
    pub api_provider_id: Option<String>,
    pub api_provider_name: Option<String>,
    pub plan_type: Option<String>,
    pub subscription_active_until: Option<String>,
    pub account_id: Option<String>,
    pub account_name: Option<String>,
    pub account_structure: Option<String>,
    pub account_note: Option<String>,
    pub tokens: Option<CodexTokens>,
    pub token_generation: u64,
    pub requires_reauth: bool,
    pub reauth_reason: Option<String>,
    pub quota: Option<CodexQuota>,
    pub quota_error: Option<CodexQuotaErrorInfo>,
    pub usage_updated_at: Option<i64>,
    pub created_at: i64,
    pub last_used: i64,
}

/// What the panel shows of an account: no token and no API key.
#[derive(Debug)]
pub struct AccountView {
    pub id: String,
    pub email: String,
    pub plan_type: Option<String>,
    pub subscription_active_until: Option<String>,
    pub account_name: Option<String>,
    pub account_structure: Option<String>,
    pub account_note: Option<String>,
    pub auth_mode: String,
    pub is_current: bool,
    pub requires_reauth: bool,
    pub reauth_reason: Option<String>,
    pub has_oauth_snapshot: bool,
    pub has_api_key: bool,
    pub can_switch: bool,
    pub quota: Option<CodexQuota>,
    pub quota_error: Option<CodexQuotaErrorInfo>,
    pub usage_updated_at: Option<i64>,
    pub created_at: i64,
    pub last_used: i64,
}

/// The account listing.
#[derive(Debug)]
pub struct AccountsResponse {
    pub current_account_id: Option<String>,
    pub accounts: Vec<AccountView>,
}

pub struct TokensView {
    pub id_token: Seq<char>,
    pub access_token: Seq<char>,
    pub refresh_token: Option<Seq<char>>,
}

pub struct QuotaView {
    pub hourly_percentage: i32,
    pub hourly_reset_time: Option<i64>,
    pub hourly_window_minutes: Option<i64>,
    pub hourly_window_present: Option<bool>,
    pub weekly_percentage: i32,
    pub weekly_reset_time: Option<i64>,
    pub weekly_window_minutes: Option<i64>,
    pub weekly_window_present: Option<bool>,
    pub raw_data: Option<JsonView>,
}

pub struct QuotaErrorView {
    pub code: Option<Seq<char>>,
    pub message: Seq<char>,
    pub timestamp: i64,
}

pub struct SummaryView {
    pub id: Seq<char>,
    pub email: Seq<char>,
    pub plan_type: Option<Seq<char>>,
    pub subscription_active_until: Option<Seq<char>>,
    pub created_at: i64,
    pub last_used: i64,
}

pub struct DetailView {
    pub raw: JsonView,
    pub id: Seq<char>,
    pub email: Seq<char>,
    pub auth_mode: Seq<char>,
    pub openai_api_key: Option<Seq<char>>,
    pub api_base_url: Option<Seq<char>>,
    pub api_provider_mode: Option<Seq<char>>,
    pub api_provider_id: Option<Seq<char>>,
    pub api_provider_name: Option<Seq<char>>,
    pub plan_type: Option<Seq<char>>,
    pub subscription_active_until: Option<Seq<char>>,
    pub account_id: Option<Seq<char>>,
    pub account_name: Option<Seq<char>>,
    pub account_structure: Option<Seq<char>>,
    pub account_note: Option<Seq<char>>,
    pub tokens: Option<TokensView>,
    pub token_generation: u64,
    pub requires_reauth: bool,
    pub reauth_reason: Option<Seq<char>>,
    pub quota: Option<QuotaView>,
    pub quota_error: Option<QuotaErrorView>,
    pub usage_updated_at: Option<i64>,
    pub created_at: i64,
    pub last_used: i64,
}

pub struct AccountViewModel {
    pub id: Seq<char>,
    pub email: Seq<char>,
    pub plan_type: Option<Seq<char>>,
    pub subscription_active_until: Option<Seq<char>>,
    pub account_name: Option<Seq<char>>,
    pub account_structure: Option<Seq<char>>,
    pub account_note: Option<Seq<char>>,
    pub auth_mode: Seq<char>,
    pub is_current: bool,
    pub requires_reauth: bool,
    pub reauth_reason: Option<Seq<char>>,
    pub has_oauth_snapshot: bool,
    pub has_api_key: bool,
    pub can_switch: bool,
    pub quota: Option<QuotaView>,
    pub quota_error: Option<QuotaErrorView>,
    pub usage_updated_at: Option<i64>,
    pub created_at: i64,
    pub last_used: i64,
}

pub struct IndexView {
    pub version: Option<Seq<char>>,
    pub accounts: Seq<SummaryView>,
    pub current_account_id: Option<Seq<char>>,
}

impl DeepView for CodexAccountIndex {
    type V = IndexView;

    open spec fn deep_view(&self) -> IndexView {
        IndexView {
            version: self.version.deep_view(),
            accounts: self.accounts.deep_view(),
            current_account_id: self.current_account_id.deep_view(),
        }
    }
}

impl DeepView for CodexTokens {
    type V = TokensView;

    open spec fn deep_view(&self) -> TokensView {
        TokensView {
            id_token: self.id_token@,
            access_token: self.access_token@,
            refresh_token: self.refresh_token.deep_view(),
        }
    }
}

pub open spec fn opt_json_view(v: Option<JsonValue>) -> Option<JsonView> {
    match v {
        Some(x) => Some(x@),
        None => None,
    }
}

impl DeepView for CodexQuota {
    type V = QuotaView;

    open spec fn deep_view(&self) -> QuotaView {
        QuotaView {
            hourly_percentage: self.hourly_percentage,
            hourly_reset_time: self.hourly_reset_time,
            hourly_window_minutes: self.hourly_window_minutes,
            hourly_window_present: self.hourly_window_present,
            weekly_percentage: self.weekly_percentage,
            weekly_reset_time: self.weekly_reset_time,
            weekly_window_minutes: self.weekly_window_minutes,
            weekly_window_present: self.weekly_window_present,
            raw_data: opt_json_view(self.raw_data),
        }
    }
}

impl DeepView for CodexQuotaErrorInfo {
    type V = QuotaErrorView;

    open spec fn deep_view(&self) -> QuotaErrorView {
        QuotaErrorView { code: self.code.deep_view(), message: self.message@, timestamp: self.timestamp }
    }
}

impl DeepView for CodexAccountSummary {
    type V = SummaryView;

    open spec fn deep_view(&self) -> SummaryView {
        SummaryView {
            id: self.id@,
            email: self.email@,
            plan_type: self.plan_type.deep_view(),
            subscription_active_until: self.subscription_active_until.deep_view(),
            created_at: self.created_at,
            last_used: self.last_used,
        }
    }
}

impl DeepView for CodexAccountDetail {
    type V = DetailView;

    open spec fn deep_view(&self) -> DetailView {
        DetailView {
            raw: self.raw@,
            id: self.id@,
            email: self.email@,
            auth_mode: self.auth_mode@,
            openai_api_key: self.openai_api_key.deep_view(),
            api_base_url: self.api_base_url.deep_view(),
            api_provider_mode: self.api_provider_mode.deep_view(),
            api_provider_id: self.api_provider_id.deep_view(),
            api_provider_name: self.api_provider_name.deep_view(),
            plan_type: self.plan_type.deep_view(),
            subscription_active_until: self.subscription_active_until.deep_view(),
            account_id: self.account_id.deep_view(),
            account_name: self.account_name.deep_view(),
            account_structure: self.account_structure.deep_view(),
            account_note: self.account_note.deep_view(),
            tokens: self.tokens.deep_view(),
            token_generation: self.token_generation,
            requires_reauth: self.requires_reauth,
            reauth_reason: self.reauth_reason.deep_view(),
            quota: self.quota.deep_view(),
            quota_error: self.quota_error.deep_view(),
            usage_updated_at: self.usage_updated_at,
            created_at: self.created_at,
            last_used: self.last_used,
        }
    }
}

impl DeepView for AccountView {
    type V = AccountViewModel;

    open spec fn deep_view(&self) -> AccountViewModel {
        AccountViewModel {
            id: self.id@,
            email: self.email@,
            plan_type: self.plan_type.deep_view(),
            subscription_active_until: self.subscription_active_until.deep_view(),
            account_name: self.account_name.deep_view(),
            account_structure: self.account_structure.deep_view(),
            account_note: self.account_note.deep_view(),
            auth_mode: self.auth_mode@,
            is_current: self.is_current,
            requires_reauth: self.requires_reauth,
            reauth_reason: self.reauth_reason.deep_view(),
            has_oauth_snapshot: self.has_oauth_snapshot,
            has_api_key: self.has_api_key,
            can_switch: self.can_switch,
            quota: self.quota.deep_view(),
            quota_error: self.quota_error.deep_view(),
            usage_updated_at: self.usage_updated_at,
            created_at: self.created_at,
            last_used: self.last_used,
        }
    }
}

// ---------------------------------------------------------------------
// Reading fields of an account file
// ---------------------------------------------------------------------

/// What `read_string` takes from a member: a string that is not blank,
/// trimmed, or a number's text.
pub open spec fn string_item(item: JsonView) -> Option<Seq<char>> {
    match item {
        JsonView::Str(s) => if is_blank(s) {
            None
        } else {
            Some(trim(s))
        },
        JsonView::Number(t, _, _) => Some(t),
        _ => None,
    }
}

/// The first of `keys` whose member gives a string by `string_item`.
pub open spec fn read_string(v: JsonView, keys: Seq<Seq<char>>) -> Option<Seq<char>>
    decreases keys.len(),
{
    if keys.len() == 0 {
        None
    } else {
        match obj_get(v, keys[0]) {
            Some(item) if string_item(item) is Some => string_item(item),
            _ => read_string(v, keys.drop_first()),
        }
    }
}

/// The member under the first of `keys` that is present.
pub open spec fn first_present(v: JsonView, keys: Seq<Seq<char>>) -> Option<JsonView>
    decreases keys.len(),
{
    if keys.len() == 0 {
        None
    } else {
        match obj_get(v, keys[0]) {
            Some(item) => Some(item),
            None => first_present(v, keys.drop_first()),
        }
    }
}

pub open spec fn key_list(key: Seq<char>, alt: Option<Seq<char>>) -> Seq<Seq<char>> {
    match alt {
        Some(a) => seq![key, a],
        None => seq![key],
    }
}

pub open spec fn opt_str_view(s: Option<&str>) -> Option<Seq<char>> {
    match s {
        Some(x) => Some(x@),
        None => None,
    }
}

/// The saved OpenAI API key: the first of `openai_api_key`, `openaiApiKey`
/// and `OPENAI_API_KEY` that is present, when it is a string that is not
/// blank, trimmed.
pub open spec fn api_key_of(v: JsonView) -> Option<Seq<char>> {
    match first_present(v, seq!["openai_api_key"@, "openaiApiKey"@, "OPENAI_API_KEY"@]) {
        Some(JsonView::Str(s)) => if is_blank(s) {
            None
        } else {
            Some(trim(s))
        },
        _ => None,
    }
}

fn string_item_of(item: &JsonValue) -> (r: Option<String>)
    ensures
        r.deep_view() == string_item(item@),
{
    match item {
        JsonValue::Str(s) => {
            if blank(s.as_str()) {
                None
            } else {
                Some(trim_str(s.as_str()))
            }
        },
        JsonValue::Number(n) => Some(n.text.clone()),
        _ => None,
    }
}

/// The first of `key` and `alt` whose member is a string that is not blank
/// (trimmed) or a number (its text).
fn read_string_of(value: &JsonValue, key: &str, alt: Option<&str>) -> (r: Option<String>)
    ensures
        r.deep_view() == read_string(value@, key_list(key@, opt_str_view(alt))),
{
    proof {
        reveal_with_fuel(read_string, 3);
    }
    let ghost keys = key_list(key@, opt_str_view(alt));
    match value.get(key) {
        Some(item) => match string_item_of(item) {
            Some(s) => {
                return Some(s);
            },
            None => {},
        },
        None => {},
    }
    match alt {
        Some(k2) => {
            let ghost rest = keys.drop_first();
            assert(rest == seq![k2@]);
            assert(rest.drop_first().len() == 0);
            match value.get(k2) {
                Some(item) => string_item_of(item),
                None => None,
            }
        },
        None => None,
    }
}

/// The member under `key`, or under `alt` where `key` is absent.
fn first_present_of<'a>(value: &'a JsonValue, key: &str, alt: &str) -> (r: Option<&'a JsonValue>)
    ensures
        match r {
            Some(x) => first_present(value@, seq![key@, alt@]) == Some(x@),
            None => first_present(value@, seq![key@, alt@]) is None,
        },
{
    proof {
        reveal_with_fuel(first_present, 3);
    }
    let ghost keys = seq![key@, alt@];
    assert(keys.drop_first() == seq![alt@]);
    assert(keys.drop_first().drop_first().len() == 0);
    match value.get(key) {
        Some(x) => Some(x),
        None => value.get(alt),
    }
}

/// The saved OpenAI API key.
fn extract_openai_api_key(value: &JsonValue) -> (r: Option<String>)
    ensures
        r.deep_view() == api_key_of(value@),
{
    proof {
        reveal_with_fuel(first_present, 4);
    }
    let ghost keys = seq!["openai_api_key"@, "openaiApiKey"@, "OPENAI_API_KEY"@];
    assert(keys.drop_first() == seq!["openaiApiKey"@, "OPENAI_API_KEY"@]);
    assert(keys.drop_first().drop_first() == seq!["OPENAI_API_KEY"@]);
    assert(keys.drop_first().drop_first().drop_first().len() == 0);
    let item = match value.get("openai_api_key") {
        Some(x) => Some(x),
        None => match value.get("openaiApiKey") {
            Some(x) => Some(x),
            None => value.get("OPENAI_API_KEY"),
        },
    };
    match item {
        Some(JsonValue::Str(s)) => {
            if blank(s.as_str()) {
                None
            } else {
                Some(trim_str(s.as_str()))
            }
        },
        _ => None,
    }
}

// ---------------------------------------------------------------------
// Reading the saved structures as `serde` does
// ---------------------------------------------------------------------

/// An optional field read from a member that may be absent: absent is
/// `None`, present goes through `de`.
pub open spec fn opt_field<T>(m: Option<JsonView>, de: spec_fn(JsonView) -> Option<Option<T>>) -> Option<Option<T>> {
    match m {
        None => Some(None),
        Some(x) => de(x),
    }
}

pub open spec fn elem(items: Seq<JsonView>, i: int) -> Option<JsonView> {
    if 0 <= i < items.len() {
        Some(items[i])
    } else {
        None
    }
}

/// A struct field as `serde` finds it: by name in an object, by position in
/// an array.
pub open spec fn member(v: JsonView, name: Seq<char>, pos: int) -> Option<JsonView> {
    match v {
        JsonView::Object(es) => crate::json::entries_get(es, name),
        JsonView::Array(items) => elem(items, pos),
        _ => None,
    }
}

/// Whether `serde` reads a struct of `min` required-through and `max` fields
/// from this value at all: any object, or an array of `min` to `max` items.
pub open spec fn struct_shape(v: JsonView, min: int, max: int) -> bool {
    match v {
        JsonView::Object(_) => true,
        JsonView::Array(items) => min <= items.len() <= max,
        _ => false,
    }
}

pub open spec fn required<T>(m: Option<JsonView>, de: spec_fn(JsonView) -> Option<T>) -> Option<T> {
    match m {
        Some(x) => de(x),
        None => None,
    }
}

/// `Option<Value>`: `null` and an absent member are `None`, anything else is kept.
pub open spec fn opt_raw(m: Option<JsonView>) -> Option<JsonView> {
    match m {
        Some(JsonView::Null) => None,
        Some(x) => Some(x),
        None => None,
    }
}

/// `serde_json::from_value::<CodexTokens>`, where it succeeds.
pub open spec fn tokens_from(v: JsonView) -> Option<TokensView> {
    if struct_shape(v, 2, 3) {
        match (
            required(member(v, "id_token"@, 0), |x| de_string(x)),
            required(member(v, "access_token"@, 1), |x| de_string(x)),
            opt_field(member(v, "refresh_token"@, 2), |x| de_opt_string(x)),
        ) {
            (Some(i), Some(a), Some(r)) => Some(
                TokensView { id_token: i, access_token: a, refresh_token: r },
            ),
            _ => None,
        }
    } else {
        None
    }
}

/// `serde_json::from_value::<CodexQuota>`, where it succeeds.
pub open spec fn quota_from(v: JsonView) -> Option<QuotaView> {
    if struct_shape(v, 5, 9) {
        match (
            required(member(v, "hourly_percentage"@, 0), |x| de_i32(x)),
            opt_field(member(v, "hourly_reset_time"@, 1), |x| de_opt_i64(x)),
            opt_field(member(v, "hourly_window_minutes"@, 2), |x| de_opt_i64(x)),
            opt_field(member(v, "hourly_window_present"@, 3), |x| de_opt_bool(x)),
            required(member(v, "weekly_percentage"@, 4), |x| de_i32(x)),
            opt_field(member(v, "weekly_reset_time"@, 5), |x| de_opt_i64(x)),
            opt_field(member(v, "weekly_window_minutes"@, 6), |x| de_opt_i64(x)),
            opt_field(member(v, "weekly_window_present"@, 7), |x| de_opt_bool(x)),
        ) {
            (Some(hp), Some(hrt), Some(hwm), Some(hwp), Some(wp), Some(wrt), Some(wwm), Some(wwp)) => Some(
                QuotaView {
                    hourly_percentage: hp,
                    hourly_reset_time: hrt,
                    hourly_window_minutes: hwm,
                    hourly_window_present: hwp,
                    weekly_percentage: wp,
                    weekly_reset_time: wrt,
                    weekly_window_minutes: wwm,
                    weekly_window_present: wwp,
                    raw_data: opt_raw(member(v, "raw_data"@, 8)),
                },
            ),
            _ => None,
        }
    } else {
        None
    }
}

/// `serde_json::from_value::<CodexQuotaErrorInfo>`, where it succeeds.
pub open spec fn quota_error_from(v: JsonView) -> Option<QuotaErrorView> {
    if struct_shape(v, 3, 3) {
        match (
            opt_field(member(v, "code"@, 0), |x| de_opt_string(x)),
            required(member(v, "message"@, 1), |x| de_string(x)),
            required(member(v, "timestamp"@, 2), |x| de_i64(x)),
        ) {
            (Some(c), Some(m), Some(t)) => Some(QuotaErrorView { code: c, message: m, timestamp: t }),
            _ => None,
        }
    } else {
        None
    }
}

fn member_of<'a>(v: &'a JsonValue, name: &str, pos: usize) -> (r: Option<&'a JsonValue>)
    ensures
        match r {
            Some(x) => member(v@, name@, pos as int) == Some(x@),
            None => member(v@, name@, pos as int) is None,
        },
{
    match v {
        JsonValue::Object(_) => v.get(name),
        JsonValue::Array(items) => {
            if pos < items.len() {
                Some(&items[pos])
            } else {
                None
            }
        },
        _ => None,
    }
}

fn shape_ok(v: &JsonValue, min: usize, max: usize) -> (r: bool)
    ensures
        r == struct_shape(v@, min as int, max as int),
{
    match v {
        JsonValue::Object(_) => true,
        JsonValue::Array(items) => min <= items.len() && items.len() <= max,
        _ => false,
    }
}

fn de_string_of(m: Option<&JsonValue>) -> (r: Option<String>)
    ensures
        r.deep_view() == required(json_opt_view(m), |x| de_string(x)),
{
    match m {
        Some(JsonValue::Str(s)) => Some(s.clone()),
        _ => None,
    }
}

fn de_opt_string_of(m: Option<&JsonValue>) -> (r: Option<Option<String>>)
    ensures
        match r {
            Some(o) => opt_field(json_opt_view(m), |x| de_opt_string(x)) == Some(o.deep_view()),
            None => opt_field(json_opt_view(m), |x| de_opt_string(x)) is None,
        },
{
    match m {
        None => Some(None),
        Some(JsonValue::Null) => Some(None),
        Some(JsonValue::Str(s)) => Some(Some(s.clone())),
        _ => None,
    }
}

fn de_opt_i64_of(m: Option<&JsonValue>) -> (r: Option<Option<i64>>)
    ensures
        r == opt_field(json_opt_view(m), |x| de_opt_i64(x)),
{
    match m {
        None => Some(None),
        Some(JsonValue::Null) => Some(None),
        Some(JsonValue::Number(n)) => match n.as_i64 {
            Some(i) => Some(Some(i)),
            None => None,
        },
        _ => None,
    }
}

fn de_opt_bool_of(m: Option<&JsonValue>) -> (r: Option<Option<bool>>)
    ensures
        r == opt_field(json_opt_view(m), |x| de_opt_bool(x)),
{
    match m {
        None => Some(None),
        Some(JsonValue::Null) => Some(None),
        Some(JsonValue::Bool(b)) => Some(Some(*b)),
        _ => None,
    }
}

fn de_i32_of(m: Option<&JsonValue>) -> (r: Option<i32>)
    ensures
        r == required(json_opt_view(m), |x| de_i32(x)),
{
    match m {
        Some(JsonValue::Number(n)) => match n.as_i64 {
            Some(i) => if i >= -2147483648 && i <= 2147483647 {
                Some(i as i32)
            } else {
                None
            },
            None => None,
        },
        _ => None,
    }
}

fn de_i64_of(m: Option<&JsonValue>) -> (r: Option<i64>)
    ensures
        r == required(json_opt_view(m), |x| de_i64(x)),
{
    match m {
        Some(JsonValue::Number(n)) => n.as_i64,
        _ => None,
    }
}

fn opt_raw_of(m: Option<&JsonValue>) -> (r: Option<JsonValue>)
    ensures
        opt_json_view(r) == opt_raw(json_opt_view(m)),
{
    match m {
        Some(JsonValue::Null) => None,
        Some(x) => Some(x.copy()),
        None => None,
    }
}

pub open spec fn json_opt_view(m: Option<&JsonValue>) -> Option<JsonView> {
    match m {
        Some(x) => Some(x@),
        None => None,
    }
}

/// `serde_json::from_value::<CodexTokens>(v.clone()).ok()`.
pub fn tokens_from_json(v: &JsonValue) -> (r: Option<CodexTokens>)
    ensures
        r.deep_view() == tokens_from(v@),
{
    if !shape_ok(v, 2, 3) {
        return None;
    }
    let id = de_string_of(member_of(v, "id_token", 0));
    let access = de_string_of(member_of(v, "access_token", 1));
    let refresh = de_opt_string_of(member_of(v, "refresh_token", 2));
    match (id, access, refresh) {
        (Some(i), Some(a), Some(r)) => Some(
            CodexTokens { id_token: i, access_token: a, refresh_token: r },
        ),
        _ => None,
    }
}

/// `serde_json::from_value::<CodexQuota>(v.clone()).ok()`.
pub fn quota_from_json(v: &JsonValue) -> (r: Option<CodexQuota>)
    ensures
        r.deep_view() == quota_from(v@),
{
    if !shape_ok(v, 5, 9) {
        return None;
    }
    let hp = de_i32_of(member_of(v, "hourly_percentage", 0));
    let hrt = de_opt_i64_of(member_of(v, "hourly_reset_time", 1));
    let hwm = de_opt_i64_of(member_of(v, "hourly_window_minutes", 2));
    let hwp = de_opt_bool_of(member_of(v, "hourly_window_present", 3));
    let wp = de_i32_of(member_of(v, "weekly_percentage", 4));
    let wrt = de_opt_i64_of(member_of(v, "weekly_reset_time", 5));
    let wwm = de_opt_i64_of(member_of(v, "weekly_window_minutes", 6));
    let wwp = de_opt_bool_of(member_of(v, "weekly_window_present", 7));
    let raw = opt_raw_of(member_of(v, "raw_data", 8));
    match (hp, hrt, hwm, hwp, wp, wrt, wwm, wwp) {
        (Some(hp), Some(hrt), Some(hwm), Some(hwp), Some(wp), Some(wrt), Some(wwm), Some(wwp)) => Some(
            CodexQuota {
                hourly_percentage: hp,
                hourly_reset_time: hrt,
                hourly_window_minutes: hwm,
                hourly_window_present: hwp,
                weekly_percentage: wp,
                weekly_reset_time: wrt,
                weekly_window_minutes: wwm,
                weekly_window_present: wwp,
                raw_data: raw,
            },
        ),
        _ => None,
    }
}

/// `serde_json::from_value::<CodexQuotaErrorInfo>(v.clone()).ok()`.
pub fn quota_error_from_json(v: &JsonValue) -> (r: Option<CodexQuotaErrorInfo>)
    ensures
        r.deep_view() == quota_error_from(v@),
{
    if !shape_ok(v, 3, 3) {
        return None;
    }
    let code = de_opt_string_of(member_of(v, "code", 0));
    let message = de_string_of(member_of(v, "message", 1));
    let timestamp = de_i64_of(member_of(v, "timestamp", 2));
    match (code, message, timestamp) {
        (Some(c), Some(m), Some(t)) => Some(CodexQuotaErrorInfo { code: c, message: m, timestamp: t }),
        _ => None,
    }
}

// ---------------------------------------------------------------------
// Reading an account file
// ---------------------------------------------------------------------

pub open spec fn or_else(a: Option<Seq<char>>, b: Option<Seq<char>>) -> Option<Seq<char>> {
    match a {
        Some(x) => Some(x),
        None => b,
    }
}

pub open spec fn summary_opt_view(f: Option<&CodexAccountSummary>) -> Option<SummaryView> {
    match f {
        Some(s) => Some(s.deep_view()),
        None => None,
    }
}

/// The account that an account file describes, with `fb` (the index entry)
/// filling in what the file lacks; the error where neither gives an id or an
/// email.
pub open spec fn detail_from(v: JsonView, fb: Option<SummaryView>) -> Result<DetailView, Seq<char>> {
    let id = or_else(
        read_string(v, seq!["id"@]),
        match fb {
            Some(s) => Some(s.id),
            None => None,
        },
    );
    match id {
        None => Err("account detail is missing id"@),
        Some(id) => {
            let email = or_else(
                read_string(v, seq!["email"@]),
                match fb {
                    Some(s) => Some(s.email),
                    None => None,
                },
            );
            match email {
                None => Err("account "@ + id + " is missing email"@),
                Some(email) => Ok(
                    DetailView {
                        raw: v,
                        id,
                        email,
                        auth_mode: match read_string(v, seq!["auth_mode"@, "authMode"@]) {
                            Some(m) => m,
                            None => if api_key_of(v) is Some {
                                "apikey"@
                            } else {
                                "oauth"@
                            },
                        },
                        openai_api_key: api_key_of(v),
                        api_base_url: read_string(v, seq!["api_base_url"@, "apiBaseUrl"@]),
                        api_provider_mode: read_string(
                            v,
                            seq!["api_provider_mode"@, "apiProviderMode"@],
                        ),
                        api_provider_id: read_string(v, seq!["api_provider_id"@, "apiProviderId"@]),
                        api_provider_name: read_string(
                            v,
                            seq!["api_provider_name"@, "apiProviderName"@],
                        ),
                        plan_type: or_else(
                            read_string(v, seq!["plan_type"@, "planType"@]),
                            match fb {
                                Some(s) => s.plan_type,
                                None => None,
                            },
                        ),
                        subscription_active_until: or_else(
                            read_string(
                                v,
                                seq!["subscription_active_until"@, "subscriptionActiveUntil"@],
                            ),
                            match fb {
                                Some(s) => s.subscription_active_until,
                                None => None,
                            },
                        ),
                        account_id: read_string(v, seq!["account_id"@, "accountId"@]),
                        account_name: read_string(v, seq!["account_name"@, "accountName"@]),
                        account_structure: read_string(
                            v,
                            seq!["account_structure"@, "accountStructure"@],
                        ),
                        account_note: read_string(v, seq!["account_note"@, "accountNote"@]),
                        tokens: match obj_get(v, "tokens"@) {
                            Some(x) => tokens_from(x),
                            None => None,
                        },
                        token_generation: match first_present(
                            v,
                            seq!["token_generation"@, "tokenGeneration"@],
                        ) {
                            Some(x) => match item_u64(x) {
                                Some(u) => u,
                                None => 0,
                            },
                            None => 0,
                        },
                        requires_reauth: match first_present(
                            v,
                            seq!["requires_reauth"@, "requiresReauth"@],
                        ) {
                            Some(x) => match item_bool(x) {
                                Some(b) => b,
                                None => false,
                            },
                            None => false,
                        },
                        reauth_reason: read_string(v, seq!["reauth_reason"@, "reauthReason"@]),
                        quota: match obj_get(v, "quota"@) {
                            Some(x) => quota_from(x),
                            None => None,
                        },
                        quota_error: match first_present(v, seq!["quota_error"@, "quotaError"@]) {
                            Some(x) => quota_error_from(x),
                            None => None,
                        },
                        usage_updated_at: match first_present(
                            v,
                            seq!["usage_updated_at"@, "usageUpdatedAt"@],
                        ) {
                            Some(x) => item_i64(x),
                            None => None,
                        },
                        created_at: match (
                            match first_present(v, seq!["created_at"@, "createdAt"@]) {
                                Some(x) => item_i64(x),
                                None => None,
                            },
                            fb,
                        ) {
                            (Some(t), _) => t,
                            (None, Some(s)) => s.created_at,
                            (None, None) => 0,
                        },
                        last_used: match (
                            match first_present(v, seq!["last_used"@, "lastUsed"@]) {
                                Some(x) => item_i64(x),
                                None => None,
                            },
                            fb,
                        ) {
                            (Some(t), _) => t,
                            (None, Some(s)) => s.last_used,
                            (None, None) => 0,
                        },
                    },
                ),
            }
        },
    }
}

pub open spec fn detail_result_view(r: Result<CodexAccountDetail, String>) -> Result<DetailView, Seq<char>> {
    match r {
        Ok(d) => Ok(d.deep_view()),
        Err(e) => Err(e@),
    }
}

fn opt_string_copy(s: &Option<String>) -> (r: Option<String>)
    ensures
        r.deep_view() == s.deep_view(),
{
    match s {
        Some(x) => Some(x.clone()),
        None => None,
    }
}

fn or_else_string(a: Option<String>, b: Option<String>) -> (r: Option<String>)
    ensures
        r.deep_view() == or_else(a.deep_view(), b.deep_view()),
{
    match a {
        Some(x) => Some(x),
        None => b,
    }
}

fn i64_member(value: &JsonValue, key: &str, alt: &str) -> (r: Option<i64>)
    ensures
        r == match first_present(value@, seq![key@, alt@]) {
            Some(x) => item_i64(x),
            None => None,
        },
{
    match first_present_of(value, key, alt) {
        Some(x) => x.as_i64(),
        None => None,
    }
}

impl CodexAccountDetail {
    /// Read an account file; `fallback` is the account's index entry, used for
    /// the id, email, plan, subscription end, creation and last use that the
    /// file lacks.
    pub fn from_value(value: JsonValue, fallback: Option<&CodexAccountSummary>) -> (r: Result<
        Self,
        String,
    >)
        ensures
            detail_result_view(r) == detail_from(value@, summary_opt_view(fallback)),
    {
        proof {
            reveal_with_fuel(read_string, 3);
            reveal_with_fuel(first_present, 3);
        }
        let id = match or_else_string(
            read_string_of(&value, "id", None),
            match fallback {
                Some(item) => Some(item.id.clone()),
                None => None,
            },
        ) {
            Some(x) => x,
            None => {
                return Err(copy_str("account detail is missing id"));
            },
        };
        let email = match or_else_string(
            read_string_of(&value, "email", None),
            match fallback {
                Some(item) => Some(item.email.clone()),
                None => None,
            },
        ) {
            Some(x) => x,
            None => {
                let m = concat2("account ", id.as_str());
                let m = concat2(m.as_str(), " is missing email");
                return Err(m);
            },
        };
        let api_key = extract_openai_api_key(&value);
        let auth_mode = match read_string_of(&value, "auth_mode", Some("authMode")) {
            Some(m) => m,
            None => if api_key.is_some() {
                copy_str("apikey")
            } else {
                copy_str("oauth")
            },
        };
        let tokens = match value.get("tokens") {
            Some(x) => tokens_from_json(x),
            None => None,
        };
        let token_generation = match first_present_of(&value, "token_generation", "tokenGeneration") {
            Some(x) => match x.as_u64() {
                Some(u) => u,
                None => 0,
            },
            None => 0,
        };
        let requires_reauth = match first_present_of(&value, "requires_reauth", "requiresReauth") {
            Some(x) => match x.as_bool() {
                Some(b) => b,
                None => false,
            },
            None => false,
        };
        let quota = match value.get("quota") {
            Some(x) => quota_from_json(x),
            None => None,
        };
        let quota_error = match first_present_of(&value, "quota_error", "quotaError") {
            Some(x) => quota_error_from_json(x),
            None => None,
        };
        let usage_updated_at = i64_member(&value, "usage_updated_at", "usageUpdatedAt");
        let created_at = match (i64_member(&value, "created_at", "createdAt"), fallback) {
            (Some(t), _) => t,
            (None, Some(s)) => s.created_at,
            (None, None) => 0,
        };
        let last_used = match (i64_member(&value, "last_used", "lastUsed"), fallback) {
            (Some(t), _) => t,
            (None, Some(s)) => s.last_used,
            (None, None) => 0,
        };
        let plan_type = or_else_string(
            read_string_of(&value, "plan_type", Some("planType")),
            match fallback {
                Some(s) => opt_string_copy(&s.plan_type),
                None => None,
            },
        );
        let subscription_active_until = or_else_string(
            read_string_of(&value, "subscription_active_until", Some("subscriptionActiveUntil")),
            match fallback {
                Some(s) => opt_string_copy(&s.subscription_active_until),
                None => None,
            },
        );
        let api_base_url = read_string_of(&value, "api_base_url", Some("apiBaseUrl"));
        let api_provider_mode = read_string_of(&value, "api_provider_mode", Some("apiProviderMode"));
        let api_provider_id = read_string_of(&value, "api_provider_id", Some("apiProviderId"));
        let api_provider_name = read_string_of(&value, "api_provider_name", Some("apiProviderName"));
        let account_id = read_string_of(&value, "account_id", Some("accountId"));
        let account_name = read_string_of(&value, "account_name", Some("accountName"));
        let account_structure = read_string_of(&value, "account_structure", Some("accountStructure"));
        let account_note = read_string_of(&value, "account_note", Some("accountNote"));
        let reauth_reason = read_string_of(&value, "reauth_reason", Some("reauthReason"));
        let d = CodexAccountDetail {
            raw: value,
            id,
            email,
            auth_mode,
            openai_api_key: api_key,
            api_base_url,
            api_provider_mode,
            api_provider_id,
            api_provider_name,
            plan_type,
            subscription_active_until,
            account_id,
            account_name,
            account_structure,
            account_note,
            tokens,
            token_generation,
            requires_reauth,
            reauth_reason,
            quota,
            quota_error,
            usage_updated_at,
            created_at,
            last_used,
        };
        Ok(d)
    }
}

// ---------------------------------------------------------------------
// How an account authenticates, and what the panel shows of it
// ---------------------------------------------------------------------

/// An API-key account: its mode says `apikey` (any ASCII case, trimmed), or it
/// has no OAuth tokens but has a key.
pub open spec fn is_api_key_auth(d: DetailView) -> bool {
    eq_ignore_case(trim(d.auth_mode), "apikey"@) || (d.tokens is None && d.openai_api_key is Some)
}

/// Whether the account holds enough to switch to it: a key that is not blank
/// for an API-key account; otherwise tokens whose id and access tokens are not
/// blank.
pub open spec fn has_switch_material(d: DetailView) -> bool {
    if is_api_key_auth(d) {
        d.openai_api_key matches Some(k) && !is_blank(k)
    } else {
        d.tokens matches Some(t) && !is_blank(t.id_token) && !is_blank(t.access_token)
    }
}

/// The panel's view of an account, marked current where its id is `current`.
pub open spec fn account_view_of(d: DetailView, current: Option<Seq<char>>) -> AccountViewModel {
    AccountViewModel {
        id: d.id,
        email: d.email,
        plan_type: d.plan_type,
        subscription_active_until: d.subscription_active_until,
        account_name: d.account_name,
        account_structure: d.account_structure,
        account_note: d.account_note,
        auth_mode: if is_api_key_auth(d) {
            "apikey"@
        } else {
            "oauth"@
        },
        is_current: current == Some(d.id),
        requires_reauth: d.requires_reauth,
        reauth_reason: d.reauth_reason,
        has_oauth_snapshot: d.tokens is Some,
        has_api_key: d.openai_api_key is Some,
        can_switch: has_switch_material(d),
        quota: d.quota,
        quota_error: d.quota_error,
        usage_updated_at: d.usage_updated_at,
        created_at: d.created_at,
        last_used: d.last_used,
    }
}

/// A saved secret with its text gone: only whether it is blank is kept.
pub open spec fn redacted_secret(s: Seq<char>) -> Seq<char> {
    if is_blank(s) {
        Seq::empty()
    } else {
        "*"@
    }
}

/// An account with every credential it holds redacted and its raw file
/// dropped: the tokens and the API key keep only whether they are present
/// and not blank.
pub open spec fn redacted(d: DetailView) -> DetailView {
    DetailView {
        raw: JsonView::Null,
        openai_api_key: match d.openai_api_key {
            Some(k) => Some(redacted_secret(k)),
            None => None,
        },
        tokens: match d.tokens {
            Some(t) => Some(
                TokensView {
                    id_token: redacted_secret(t.id_token),
                    access_token: redacted_secret(t.access_token),
                    refresh_token: None,
                },
            ),
            None => None,
        },
        ..d
    }
}

/// The panel never shows a saved credential: an account's view is the same
/// whatever its tokens, its API key and its raw file hold, as long as the
/// same of them are present and not blank.
pub proof fn lemma_view_hides_credentials(d: DetailView, current: Option<Seq<char>>)
    ensures
        account_view_of(redacted(d), current) == account_view_of(d, current),
{
    reveal_strlit("*");
    let r = redacted(d);
    assert(is_api_key_auth(r) == is_api_key_auth(d));
    assert(has_switch_material(r) == has_switch_material(d));
}

impl CodexQuota {
    /// A copy of this quota.
    pub fn copy(&self) -> (r: CodexQuota)
        ensures
            r.deep_view() == self.deep_view(),
    {
        CodexQuota {
            hourly_percentage: self.hourly_percentage,
            hourly_reset_time: self.hourly_reset_time,
            hourly_window_minutes: self.hourly_window_minutes,
            hourly_window_present: self.hourly_window_present,
            weekly_percentage: self.weekly_percentage,
            weekly_reset_time: self.weekly_reset_time,
            weekly_window_minutes: self.weekly_window_minutes,
            weekly_window_present: self.weekly_window_present,
            raw_data: match &self.raw_data {
                Some(v) => Some(v.copy()),
                None => None,
            },
        }
    }
}

impl CodexQuotaErrorInfo {
    /// A copy of this error record.
    pub fn copy(&self) -> (r: CodexQuotaErrorInfo)
        ensures
            r.deep_view() == self.deep_view(),
    {
        CodexQuotaErrorInfo {
            code: opt_string_copy(&self.code),
            message: self.message.clone(),
            timestamp: self.timestamp,
        }
    }
}

impl CodexAccountDetail {
    /// Whether the account authenticates with an API key.
    pub fn is_api_key_auth(&self) -> (r: bool)
        ensures
            r == is_api_key_auth(self.deep_view()),
    {
        let mode = chars_of(self.auth_mode.as_str());
        let (a, b) = trim_bounds(mode.as_slice());
        let trimmed = crate::text::string_of_range(mode.as_slice(), a, b);
        let tv = chars_of(trimmed.as_str());
        let apikey = chars_of("apikey");
        eq_ignore_ascii_case(tv.as_slice(), apikey.as_slice()) || (self.tokens.is_none()
            && self.openai_api_key.is_some())
    }

    /// Whether the account holds enough saved credentials to switch to it.
    pub fn has_switch_material(&self) -> (r: bool)
        ensures
            r == has_switch_material(self.deep_view()),
    {
        if self.is_api_key_auth() {
            return match &self.openai_api_key {
                Some(k) => !blank(k.as_str()),
                None => false,
            };
        }
        match &self.tokens {
            Some(t) => !blank(t.id_token.as_str()) && !blank(t.access_token.as_str()),
            None => false,
        }
    }

    /// The panel's view of this account; current where its id is
    /// `current_account_id`.
    pub fn to_view(&self, current_account_id: Option<&str>) -> (v: AccountView)
        ensures
            v.deep_view() == account_view_of(self.deep_view(), opt_str_view(current_account_id)),
    {
        let is_current = match current_account_id {
            Some(c) => str_eq(c, self.id.as_str()),
            None => false,
        };
        AccountView {
            id: self.id.clone(),
            email: self.email.clone(),
            plan_type: opt_string_copy(&self.plan_type),
            subscription_active_until: opt_string_copy(&self.subscription_active_until),
            account_name: opt_string_copy(&self.account_name),
            account_structure: opt_string_copy(&self.account_structure),
            account_note: opt_string_copy(&self.account_note),
            auth_mode: if self.is_api_key_auth() {
                copy_str("apikey")
            } else {
                copy_str("oauth")
            },
            is_current,
            requires_reauth: self.requires_reauth,
            reauth_reason: opt_string_copy(&self.reauth_reason),
            has_oauth_snapshot: self.tokens.is_some(),
            has_api_key: self.openai_api_key.is_some(),
            can_switch: self.has_switch_material(),
            quota: match &self.quota {
                Some(q) => Some(q.copy()),
                None => None,
            },
            quota_error: match &self.quota_error {
                Some(q) => Some(q.copy()),
                None => None,
            },
            usage_updated_at: self.usage_updated_at,
            created_at: self.created_at,
            last_used: self.last_used,
        }
    }
}

// ---------------------------------------------------------------------
// The account listing
// ---------------------------------------------------------------------

/// `x` placed after every leading view used at least as recently.
pub open spec fn insert_by_last_used(s: Seq<AccountViewModel>, x: AccountViewModel) -> Seq<
    AccountViewModel,
>
    decreases s.len(),
{
    if s.len() == 0 {
        seq![x]
    } else if s[0].last_used >= x.last_used {
        seq![s[0]] + insert_by_last_used(s.drop_first(), x)
    } else {
        seq![x] + s
    }
}

/// The stable sort by `last_used`, most recent first.
pub open spec fn sort_by_last_used(s: Seq<AccountViewModel>) -> Seq<AccountViewModel>
    decreases s.len(),
{
    if s.len() == 0 {
        s
    } else {
        insert_by_last_used(sort_by_last_used(s.drop_last()), s.last())
    }
}

pub open spec fn file_outcome(summary: SummaryView, file: Result<JsonView, Seq<char>>) -> Result<
    DetailView,
    Seq<char>,
> {
    match file {
        Err(e) => Err(e),
        Ok(v) => detail_from(v, Some(summary)),
    }
}

/// The views of the accounts whose files read, in index order.
pub open spec fn readable_views(
    sums: Seq<SummaryView>,
    files: Seq<Result<JsonView, Seq<char>>>,
    current: Option<Seq<char>>,
) -> Seq<AccountViewModel>
    decreases sums.len(),
{
    if sums.len() == 0 || files.len() == 0 {
        Seq::empty()
    } else {
        let prev = readable_views(sums.drop_last(), files.drop_last(), current);
        match file_outcome(sums.last(), files.last()) {
            Ok(d) => prev.push(account_view_of(d, current)),
            Err(_) => prev,
        }
    }
}

/// A note for each account whose file did not read, in index order.
pub open spec fn skip_notes(sums: Seq<SummaryView>, files: Seq<Result<JsonView, Seq<char>>>) -> Seq<
    Seq<char>,
>
    decreases sums.len(),
{
    if sums.len() == 0 || files.len() == 0 {
        Seq::empty()
    } else {
        let prev = skip_notes(sums.drop_last(), files.drop_last());
        match file_outcome(sums.last(), files.last()) {
            Ok(_) => prev,
            Err(e) => prev.push("skip unreadable account "@ + sums.last().id + ": "@ + e),
        }
    }
}

pub open spec fn file_view(f: Result<JsonValue, String>) -> Result<JsonView, Seq<char>> {
    match f {
        Ok(v) => Ok(v@),
        Err(e) => Err(e@),
    }
}

pub open spec fn files_view(files: Seq<Result<JsonValue, String>>) -> Seq<Result<JsonView, Seq<char>>> {
    files.map_values(|f: Result<JsonValue, String>| file_view(f))
}

pub open spec fn first_older(s: Seq<AccountViewModel>, x: AccountViewModel, p: int) -> bool {
    &&& 0 <= p <= s.len()
    &&& forall|k: int| 0 <= k < p ==> (#[trigger] s[k]).last_used >= x.last_used
    &&& p < s.len() ==> s[p].last_used < x.last_used
}

proof fn lemma_insert_at(s: Seq<AccountViewModel>, x: AccountViewModel, p: int)
    requires
        first_older(s, x, p),
    ensures
        insert_by_last_used(s, x) == s.take(p) + seq![x] + s.skip(p),
    decreases s.len(),
{
    if s.len() == 0 {
        assert(s.take(p) + seq![x] + s.skip(p) =~= seq![x]);
    } else if s[0].last_used >= x.last_used {
        assert(p > 0);
        let t = s.drop_first();
        assert forall|k: int| 0 <= k < p - 1 implies (#[trigger] t[k]).last_used >= x.last_used by {
            assert(t[k] == s[k + 1]);
        }
        lemma_insert_at(t, x, p - 1);
        assert(seq![s[0]] + (t.take(p - 1) + seq![x] + t.skip(p - 1)) =~= s.take(p) + seq![x]
            + s.skip(p));
    } else {
        assert(p == 0);
        assert(s.take(p) + seq![x] + s.skip(p) =~= seq![x] + s);
    }
}

/// Insert `x` after every leading view used at least as recently.
fn insert_view(out: &mut Vec<AccountView>, x: AccountView)
    ensures
        final(out).deep_view() == insert_by_last_used(old(out).deep_view(), x.deep_view()),
{
    let ghost s = out.deep_view();
    let mut p: usize = 0;
    while p < out.len() && out[p].last_used >= x.last_used
        invariant
            p <= out@.len(),
            s == out.deep_view(),
            forall|k: int| 0 <= k < p ==> (#[trigger] s[k]).last_used >= x.last_used,
        decreases out@.len() - p,
    {
        assert(s[p as int] == out@[p as int].deep_view());
        p = p + 1;
    }
    proof {
        if p < out@.len() {
            assert(s[p as int] == out@[p as int].deep_view());
        }
        lemma_insert_at(s, x.deep_view(), p as int);
    }
    let ghost before = out@;
    out.insert(p, x);
    assert(out.deep_view() =~= s.take(p as int) + seq![x.deep_view()] + s.skip(p as int));
}

/// The listing of an index whose account files read to `files` (in the
/// index's order): the views of the accounts that read, most recently used
/// first (ties keep index order), and a note for each account that did not.
pub fn list_accounts(index: &CodexAccountIndex, files: &Vec<Result<JsonValue, String>>) -> (r: (
    AccountsResponse,
    Vec<String>,
))
    requires
        files@.len() == index.accounts@.len(),
    ensures
        r.0.current_account_id.deep_view() == index.current_account_id.deep_view(),
        r.0.accounts.deep_view() == sort_by_last_used(
            readable_views(
                index.accounts.deep_view(),
                files_view(files@),
                index.current_account_id.deep_view(),
            ),
        ),
        r.1.deep_view() == skip_notes(index.accounts.deep_view(), files_view(files@)),
{
    let ghost sums = index.accounts.deep_view();
    let ghost fv = files_view(files@);
    let ghost cur = index.current_account_id.deep_view();
    let current: Option<&str> = match &index.current_account_id {
        Some(c) => Some(c.as_str()),
        None => None,
    };
    assert(opt_str_view(current) == cur);
    let mut out: Vec<AccountView> = Vec::new();
    let mut notes: Vec<String> = Vec::new();
    let mut i: usize = 0;
    assert(sums.take(0) =~= Seq::<SummaryView>::empty());
    assert(fv.take(0) =~= Seq::<Result<JsonView, Seq<char>>>::empty());
    while i < files.len()
        invariant
            files@.len() == index.accounts@.len(),
            i <= files@.len(),
            sums == index.accounts.deep_view(),
            fv == files_view(files@),
            opt_str_view(current) == cur,
            out.deep_view() == sort_by_last_used(
                readable_views(sums.take(i as int), fv.take(i as int), cur),
            ),
            notes.deep_view() == skip_notes(sums.take(i as int), fv.take(i as int)),
        decreases files@.len() - i,
    {
        let ghost s_next = sums.take(i + 1);
        let ghost f_next = fv.take(i + 1);
        assert(s_next.drop_last() =~= sums.take(i as int));
        assert(f_next.drop_last() =~= fv.take(i as int));
        assert(s_next.last() == sums[i as int]);
        assert(f_next.last() == fv[i as int]);
        let summary = &index.accounts[i];
        assert(sums[i as int] == summary.deep_view());
        let outcome = match &files[i] {
            Ok(v) => CodexAccountDetail::from_value(v.copy(), Some(summary)),
            Err(e) => Err(e.clone()),
        };
        assert(detail_result_view(outcome) == file_outcome(sums[i as int], fv[i as int]));
        match outcome {
            Ok(detail) => {
                let view = detail.to_view(current);
                let ghost prev = readable_views(sums.take(i as int), fv.take(i as int), cur);
                assert(prev.push(view.deep_view()).drop_last() =~= prev);
                insert_view(&mut out, view);
            },
            Err(e) => {
                let m = concat2("skip unreadable account ", summary.id.as_str());
                let m = concat2(m.as_str(), ": ");
                let m = concat2(m.as_str(), e.as_str());
                notes.push(m);
                assert(notes.deep_view() =~= skip_notes(s_next, f_next));
            },
        }
        i = i + 1;
    }
    assert(sums.take(i as int) =~= sums);
    assert(fv.take(i as int) =~= fv);
    let response = AccountsResponse {
        current_account_id: opt_string_copy(&index.current_account_id),
        accounts: out,
    };
    (response, notes)
}

/// Views listed by `sort_by_last_used` run from most to least recently used.
pub open spec fn newest_first(s: Seq<AccountViewModel>) -> bool {
    forall|i: int, j: int| 0 <= i < j < s.len() ==> s[i].last_used >= s[j].last_used
}

proof fn lemma_insert_keeps_order(s: Seq<AccountViewModel>, x: AccountViewModel)
    requires
        newest_first(s),
    ensures
        newest_first(insert_by_last_used(s, x)),
        insert_by_last_used(s, x).to_multiset() == s.to_multiset().insert(x),
    decreases s.len(),
{
    broadcast use vstd::seq_lib::group_to_multiset_ensures;

    if s.len() == 0 {
        assert(seq![x] =~= s.push(x));
    } else if s[0].last_used >= x.last_used {
        let t = s.drop_first();
        assert forall|i: int, j: int| 0 <= i < j < t.len() implies t[i].last_used
            >= t[j].last_used by {
            assert(t[i] == s[i + 1] && t[j] == s[j + 1]);
        }
        lemma_insert_keeps_order(t, x);
        let r = insert_by_last_used(t, x);
        let whole = seq![s[0]] + r;
        assert forall|i: int, j: int| 0 <= i < j < whole.len() implies whole[i].last_used
            >= whole[j].last_used by {
            if i == 0 {
                // Every member of `r` is `x` or a later member of `s`.
                assert(r.to_multiset().count(whole[j]) > 0);
                assert(t.to_multiset().insert(x).count(whole[j]) > 0);
                if whole[j] != x {
                    assert(t.to_multiset().count(whole[j]) > 0);
                    assert(t.contains(whole[j]));
                    let k = choose|k: int| 0 <= k < t.len() && t[k] == whole[j];
                    assert(s[k + 1] == whole[j]);
                }
            }
        }
        assert(s =~= seq![s[0]] + t);
        vstd::seq_lib::lemma_multiset_commutative(seq![s[0]], r);
        vstd::seq_lib::lemma_multiset_commutative(seq![s[0]], t);
    } else {
        let whole = seq![x] + s;
        assert forall|i: int, j: int| 0 <= i < j < whole.len() implies whole[i].last_used
            >= whole[j].last_used by {
            if i > 0 {
                assert(whole[i] == s[i - 1] && whole[j] == s[j - 1]);
            } else {
                assert(whole[j] == s[j - 1]);
                assert(s[0].last_used >= s[j - 1].last_used || j - 1 == 0);
            }
        }
        vstd::seq_lib::lemma_multiset_commutative(seq![x], s);
    }
}

/// The listing order: every account that read appears exactly as often as it
/// was read, and the list runs from the most to the least recently used.
pub proof fn lemma_listing_order(s: Seq<AccountViewModel>)
    ensures
        newest_first(sort_by_last_used(s)),
        sort_by_last_used(s).to_multiset() == s.to_multiset(),
    decreases s.len(),
{
    broadcast use vstd::seq_lib::group_to_multiset_ensures;

    if s.len() > 0 {
        lemma_sort_step(s);
        lemma_listing_order(s.drop_last());
        lemma_insert_keeps_order(sort_by_last_used(s.drop_last()), s.last());
        assert(s =~= s.drop_last().push(s.last()));
    }
}

proof fn lemma_sort_step(s: Seq<AccountViewModel>)
    requires
        s.len() > 0,
    ensures
        sort_by_last_used(s) == insert_by_last_used(sort_by_last_used(s.drop_last()), s.last()),
{
}

// ---------------------------------------------------------------------
// The login state written for Codex
// ---------------------------------------------------------------------

pub open spec fn entry(key: Seq<char>, value: JsonView) -> (Seq<char>, JsonView) {
    (key, value)
}

/// The token object of `auth.json`: the id and access tokens, then the refresh
/// token and the ChatGPT account id where they are not blank.
pub open spec fn oauth_tokens_json(t: TokensView, account_id: Option<Seq<char>>) -> JsonView {
    let base = seq![
        entry("id_token"@, JsonView::Str(t.id_token)),
        entry("access_token"@, JsonView::Str(t.access_token)),
    ];
    let with_refresh = match t.refresh_token {
        Some(r) => if is_blank(r) {
            base
        } else {
            base.push(entry("refresh_token"@, JsonView::Str(r)))
        },
        None => base,
    };
    let with_account = match account_id {
        Some(a) => if is_blank(a) {
            with_refresh
        } else {
            with_refresh.push(entry("account_id"@, JsonView::Str(a)))
        },
        None => with_refresh,
    };
    JsonView::Object(with_account)
}

/// Codex's `auth.json` for an account, refreshed at `last_refresh`: for an
/// API-key account its mode and trimmed key; for an OAuth account a null key,
/// the tokens and the refresh time. The errors name what the account lacks.
pub open spec fn auth_file_json(d: DetailView, last_refresh: Seq<char>) -> Result<JsonView, Seq<char>> {
    if is_api_key_auth(d) {
        match d.openai_api_key {
            Some(k) => if is_blank(k) {
                Err("API key account is missing OPENAI_API_KEY"@)
            } else {
                Ok(
                    JsonView::Object(
                        seq![
                            entry("auth_mode"@, JsonView::Str("apikey"@)),
                            entry("OPENAI_API_KEY"@, JsonView::Str(trim(k))),
                        ],
                    ),
                )
            },
            None => Err("API key account is missing OPENAI_API_KEY"@),
        }
    } else {
        match d.tokens {
            None => Err("OAuth account is missing tokens"@),
            Some(t) => if is_blank(t.id_token) || is_blank(t.access_token) {
                Err("OAuth account is missing id_token/access_token"@)
            } else {
                Ok(
                    JsonView::Object(
                        seq![
                            entry("OPENAI_API_KEY"@, JsonView::Null),
                            entry("tokens"@, oauth_tokens_json(t, d.account_id)),
                            entry("last_refresh"@, JsonView::Str(last_refresh)),
                        ],
                    ),
                )
            },
        }
    }
}

pub open spec fn json_result_view(r: Result<JsonValue, String>) -> Result<JsonView, Seq<char>> {
    match r {
        Ok(v) => Ok(v@),
        Err(e) => Err(e@),
    }
}

fn object_of(entries: Vec<(String, JsonValue)>) -> (r: JsonValue)
    ensures
        r@ == JsonView::Object(
            Seq::new(entries@.len(), |i: int| (entries@[i].0@, entries@[i].1@)),
        ),
{
    let r = JsonValue::Object(entries);
    assert(r@->Object_0 =~= Seq::new(entries@.len(), |i: int| (entries@[i].0@, entries@[i].1@)));
    r
}

/// `auth.json` for an account, with `last_refresh` as its refresh time.
pub fn build_auth_file_value_at(account: &CodexAccountDetail, last_refresh: &str) -> (r: Result<
    JsonValue,
    String,
>)
    ensures
        json_result_view(r) == auth_file_json(account.deep_view(), last_refresh@),
{
    if account.is_api_key_auth() {
        let key = match &account.openai_api_key {
            Some(k) => {
                if blank(k.as_str()) {
                    return Err(copy_str("API key account is missing OPENAI_API_KEY"));
                }
                trim_str(k.as_str())
            },
            None => {
                return Err(copy_str("API key account is missing OPENAI_API_KEY"));
            },
        };
        let mut es: Vec<(String, JsonValue)> = Vec::new();
        es.push((copy_str("auth_mode"), JsonValue::string("apikey")));
        es.push((copy_str("OPENAI_API_KEY"), JsonValue::Str(key)));
        let r = object_of(es);
        assert(r@->Object_0 =~= seq![
            entry("auth_mode"@, JsonView::Str("apikey"@)),
            entry("OPENAI_API_KEY"@, JsonView::Str(trim(account.deep_view().openai_api_key->0))),
        ]);
        return Ok(r);
    }
    let tokens = match &account.tokens {
        Some(t) => t,
        None => {
            return Err(copy_str("OAuth account is missing tokens"));
        },
    };
    if blank(tokens.id_token.as_str()) || blank(tokens.access_token.as_str()) {
        return Err(copy_str("OAuth account is missing id_token/access_token"));
    }
    let mut te: Vec<(String, JsonValue)> = Vec::new();
    te.push((copy_str("id_token"), JsonValue::Str(tokens.id_token.clone())));
    te.push((copy_str("access_token"), JsonValue::Str(tokens.access_token.clone())));
    let ghost base = te@;
    match &tokens.refresh_token {
        Some(r) => if !blank(r.as_str()) {
            te.push((copy_str("refresh_token"), JsonValue::Str(r.clone())));
        },
        None => {},
    }
    let ghost mid = te@;
    match &account.account_id {
        Some(a) => if !blank(a.as_str()) {
            te.push((copy_str("account_id"), JsonValue::Str(a.clone())));
        },
        None => {},
    }
    let t = object_of(te);
    assert(t@ == oauth_tokens_json(tokens.deep_view(), account.account_id.deep_view())) by {
        assert(t@->Object_0 =~= oauth_tokens_json(
            tokens.deep_view(),
            account.account_id.deep_view(),
        )->Object_0);
    }
    let mut es: Vec<(String, JsonValue)> = Vec::new();
    es.push((copy_str("OPENAI_API_KEY"), JsonValue::Null));
    es.push((copy_str("tokens"), t));
    es.push((copy_str("last_refresh"), JsonValue::string(last_refresh)));
    let r = object_of(es);
    assert(r@->Object_0 =~= seq![
        entry("OPENAI_API_KEY"@, JsonView::Null),
        entry("tokens"@, oauth_tokens_json(tokens.deep_view(), account.account_id.deep_view())),
        entry("last_refresh"@, JsonView::Str(last_refresh@)),
    ]);
    Ok(r)
}

/// `auth.json` for an account, refreshed now: its `last_refresh` (for an
/// OAuth account) is the current time as RFC 3339 text in UTC with
/// microseconds.
pub fn build_auth_file_value(account: &CodexAccountDetail) -> (r: Result<JsonValue, String>)
    ensures
        match r {
            Ok(v) => exists|t: Seq<char>|
                rfc3339_micros_utc(t) && auth_file_json(account.deep_view(), t) == Ok::<JsonView, Seq<char>>(v@),
            Err(e) => forall|t: Seq<char>| auth_file_json(account.deep_view(), t) == Err::<JsonView, Seq<char>>(e@),
        },
{
    let now = crate::crypto::now_rfc3339_micros();
    let r = build_auth_file_value_at(account, now.as_str());
    proof {
        if r is Err {
            assert forall|t: Seq<char>| auth_file_json(account.deep_view(), t) == Err::<JsonView, Seq<char>>(r->Err_0@) by {
                assert(auth_file_json(account.deep_view(), t) is Err == auth_file_json(account.deep_view(), now@) is Err);
            }
        }
    }
    r
}


/// `d` with other API provider settings.
pub open spec fn with_provider(
    d: DetailView,
    base_url: Option<Seq<char>>,
    mode: Option<Seq<char>>,
    id: Option<Seq<char>>,
    name: Option<Seq<char>>,
) -> DetailView {
    DetailView {
        api_base_url: base_url,
        api_provider_mode: mode,
        api_provider_id: id,
        api_provider_name: name,
        ..d
    }
}

/// An account can be switched to exactly when Codex's `auth.json` can be
/// written for it, at any refresh time: an API-key account exactly when its
/// key is present and not blank, an OAuth account exactly when its id and
/// access tokens are present and not blank. Nothing else about the account,
/// such as its API base URL or provider, plays a part.
pub proof fn lemma_switch_material_is_writable_auth(d: DetailView, last_refresh: Seq<char>)
    ensures
        has_switch_material(d) <==> auth_file_json(d, last_refresh) is Ok,
        is_api_key_auth(d) ==> (has_switch_material(d) <==> (d.openai_api_key matches Some(k) && !is_blank(k))),
        !is_api_key_auth(d) ==> (has_switch_material(d) <==> (d.tokens matches Some(t) && !is_blank(t.id_token)
            && !is_blank(t.access_token))),
        forall|base_url: Option<Seq<char>>, mode: Option<Seq<char>>, id: Option<Seq<char>>, name: Option<Seq<char>>|
            #[trigger] has_switch_material(with_provider(d, base_url, mode, id, name)) == has_switch_material(d),
{
}

/// `serde` reads each field of a saved quota from the member of its own
/// name in an object, or from its own position in an array: the 5-hour
/// percentage from `hourly_percentage` (first), the weekly one from
/// `weekly_percentage` (fifth), and likewise for the reset times, windows
/// and their presence flags.
pub proof fn lemma_quota_fields_by_name(v: JsonView)
    ensures
        quota_from(v) matches Some(q) ==> match v {
            JsonView::Object(_) => {
                &&& (obj_get(v, "hourly_percentage"@) matches Some(x) && de_i32(x) == Some(q.hourly_percentage))
                &&& (obj_get(v, "weekly_percentage"@) matches Some(x) && de_i32(x) == Some(q.weekly_percentage))
                &&& (obj_get(v, "hourly_reset_time"@) matches Some(x) ==> de_opt_i64(x) == Some(q.hourly_reset_time))
                &&& (obj_get(v, "weekly_reset_time"@) matches Some(x) ==> de_opt_i64(x) == Some(q.weekly_reset_time))
                &&& (obj_get(v, "hourly_window_minutes"@) matches Some(x) ==> de_opt_i64(x) == Some(q.hourly_window_minutes))
                &&& (obj_get(v, "weekly_window_minutes"@) matches Some(x) ==> de_opt_i64(x) == Some(q.weekly_window_minutes))
                &&& (obj_get(v, "hourly_window_present"@) matches Some(x) ==> de_opt_bool(x) == Some(q.hourly_window_present))
                &&& (obj_get(v, "weekly_window_present"@) matches Some(x) ==> de_opt_bool(x) == Some(q.weekly_window_present))
            },
            JsonView::Array(items) => {
                &&& 5 <= items.len() <= 9
                &&& de_i32(items[0]) == Some(q.hourly_percentage)
                &&& de_i32(items[4]) == Some(q.weekly_percentage)
            },
            _ => false,
        },
{
}

/// `serde` reads saved tokens by name (or position): the id token from
/// `id_token`, the access token from `access_token`, the refresh token from
/// `refresh_token`.
pub proof fn lemma_token_fields_by_name(v: JsonView)
    ensures
        tokens_from(v) matches Some(t) ==> match v {
            JsonView::Object(_) => {
                &&& (obj_get(v, "id_token"@) matches Some(x) && de_string(x) == Some(t.id_token))
                &&& (obj_get(v, "access_token"@) matches Some(x) && de_string(x) == Some(t.access_token))
                &&& (obj_get(v, "refresh_token"@) matches Some(x) ==> de_opt_string(x) == Some(t.refresh_token))
                &&& (obj_get(v, "refresh_token"@) is None ==> t.refresh_token is None)
            },
            JsonView::Array(items) => {
                &&& 2 <= items.len() <= 3
                &&& de_string(items[0]) == Some(t.id_token)
                &&& de_string(items[1]) == Some(t.access_token)
            },
            _ => false,
        },
{
}

} // verus!
