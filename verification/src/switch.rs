//! Switching the Codex login to a saved account, as a sequence of decisions
//! between pieces of outside work: each step takes what the last piece of
//! work gave and says what to do next.
use crate::accounts::{
    account_view_of, auth_file_json, detail_from, has_switch_material, is_api_key_auth,
    AccountView, AccountViewModel, CodexAccountDetail, CodexAccountIndex, CodexAccountSummary,
    DetailView, IndexView, SummaryView,
};
use crate::crypto::rfc3339_micros_utc;
use crate::config_toml::{custom_mode, lemma_config_edit_follows_account, config_edit_for, config_toml_edit, ConfigEditModel, ConfigTomlEdit};
use crate::json::{object_set, JsonValue, JsonView};
use crate::paths::strip_end;
use crate::text::{is_blank, chars_of, concat2, copy_str, int_text, str_eq, string_of_range, trim, trim_bounds};
use vstd::prelude::*;

verus! {

/// A request to switch to the account `account_id`, restarting Codex or not.
#[derive(Debug, Clone)]
pub struct SwitchRequest {
    pub account_id: String,
    pub restart: bool,
}

/// Whether a switch restarts Codex when the request does not say: it does.
pub fn default_restart() -> (r: bool)
    ensures
        r,
{
    true
}

/// The record that marks which saved account Codex's login came from.
#[derive(Debug, Clone)]
pub struct ManagedProjection {
    pub version: u32,
    pub writer: String,
    pub account_id: String,
    pub email: String,
    pub token_generation: u64,
    pub written_at: i64,
}

/// The outcome of a switch: the account now current, and whether Codex was
/// restarted.
#[derive(Debug)]
pub struct SwitchResponse {
    pub account: AccountView,
    pub restarted: bool,
}

pub struct ProjectionModel {
    pub version: u32,
    pub writer: Seq<char>,
    pub account_id: Seq<char>,
    pub email: Seq<char>,
    pub token_generation: u64,
    pub written_at: i64,
}

pub struct ResponseModel {
    pub account: AccountViewModel,
    pub restarted: bool,
}

impl DeepView for ManagedProjection {
    type V = ProjectionModel;

    open spec fn deep_view(&self) -> ProjectionModel {
        ProjectionModel {
            version: self.version,
            writer: self.writer@,
            account_id: self.account_id@,
            email: self.email@,
            token_generation: self.token_generation,
            written_at: self.written_at,
        }
    }
}

impl DeepView for SwitchResponse {
    type V = ResponseModel;

    open spec fn deep_view(&self) -> ResponseModel {
        ResponseModel { account: self.account.deep_view(), restarted: self.restarted }
    }
}

/// The projection record for `d`, written at `now`.
pub open spec fn projection_for(d: DetailView, now: i64) -> ProjectionModel {
    ProjectionModel {
        version: 1,
        writer: "cockpit"@,
        account_id: d.id,
        email: d.email,
        token_generation: d.token_generation,
        written_at: now,
    }
}

/// The projection record for `account`, written at `written_at`.
pub fn managed_projection(account: &CodexAccountDetail, written_at: i64) -> (p: ManagedProjection)
    ensures
        p.deep_view() == projection_for(account.deep_view(), written_at),
{
    ManagedProjection {
        version: 1,
        writer: copy_str("cockpit"),
        account_id: account.id.clone(),
        email: account.email.clone(),
        token_generation: account.token_generation,
        written_at,
    }
}

// ---------------------------------------------------------------------
// Steps, work and events
// ---------------------------------------------------------------------

/// Where a switch stands.
#[derive(Debug, Clone)]
pub enum SwitchStage {
    Begin,
    LoadingIndex,
    LoadingAccount,
    Capturing,
    BackingUp,
    CreatingHome,
    WritingBundle,
    SavingIndex,
    SavingAccount,
    Restarting,
    RollingBack,
    Finished,
}

/// The outside work a switch asks for next.
#[derive(Debug)]
pub enum SwitchAction {
    /// Read and parse the account index.
    LoadIndex,
    /// Read and parse the account file of `account_id`.
    LoadAccountFile { account_id: String },
    /// Keep copies of every file and Keychain entry the switch may change.
    CaptureRollback { account_id: String },
    /// Copy the current login files to a dated backup directory.
    Backup,
    /// Create the Codex home directory.
    CreateCodexHome,
    /// Write `auth.json`, the Keychain entry (service `Codex Auth`) with the
    /// same payload, for every account, the projection record, and
    /// `config.toml` (with the edit for whether it exists).
    WriteBundle {
        auth: JsonValue,
        projection: ManagedProjection,
        config_if_present: ConfigTomlEdit,
        config_if_missing: ConfigTomlEdit,
    },
    /// Write the account index.
    SaveIndex { index: CodexAccountIndex },
    /// Write the account file of `account_id`.
    SaveAccountFile { account_id: String, raw: JsonValue },
    /// Quit and relaunch the Codex app.
    Restart { app_path: String },
    /// Put back everything the snapshot holds.
    Rollback,
    /// The switch is over.
    Finish { result: Result<SwitchResponse, String> },
}

/// What the last piece of work gave.
#[derive(Debug)]
pub enum SwitchEvent {
    Start,
    IndexLoaded(CodexAccountIndex),
    AccountFileLoaded(JsonValue),
    Done,
    Restarted(bool),
    Failed(String),
}

pub enum ActionModel {
    LoadIndex,
    LoadAccountFile { account_id: Seq<char> },
    CaptureRollback { account_id: Seq<char> },
    Backup,
    CreateCodexHome,
    WriteBundle {
        auth: JsonView,
        projection: ProjectionModel,
        config_if_present: ConfigEditModel,
        config_if_missing: ConfigEditModel,
    },
    SaveIndex { index: IndexView },
    SaveAccountFile { account_id: Seq<char>, raw: JsonView },
    Restart { app_path: Seq<char> },
    Rollback,
    Finish { result: Result<ResponseModel, Seq<char>> },
}

pub enum EventModel {
    Start,
    IndexLoaded(IndexView),
    AccountFileLoaded(JsonView),
    Done,
    Restarted(bool),
    Failed(Seq<char>),
}

impl DeepView for SwitchAction {
    type V = ActionModel;

    open spec fn deep_view(&self) -> ActionModel {
        match self {
            SwitchAction::LoadIndex => ActionModel::LoadIndex,
            SwitchAction::LoadAccountFile { account_id } => ActionModel::LoadAccountFile {
                account_id: account_id@,
            },
            SwitchAction::CaptureRollback { account_id } => ActionModel::CaptureRollback {
                account_id: account_id@,
            },
            SwitchAction::Backup => ActionModel::Backup,
            SwitchAction::CreateCodexHome => ActionModel::CreateCodexHome,
            SwitchAction::WriteBundle {
                auth,
                projection,
                config_if_present,
                config_if_missing,
            } => ActionModel::WriteBundle {
                auth: auth@,
                projection: projection.deep_view(),
                config_if_present: config_if_present.deep_view(),
                config_if_missing: config_if_missing.deep_view(),
            },
            SwitchAction::SaveIndex { index } => ActionModel::SaveIndex { index: index.deep_view() },
            SwitchAction::SaveAccountFile { account_id, raw } => ActionModel::SaveAccountFile {
                account_id: account_id@,
                raw: raw@,
            },
            SwitchAction::Restart { app_path } => ActionModel::Restart { app_path: app_path@ },
            SwitchAction::Rollback => ActionModel::Rollback,
            SwitchAction::Finish { result } => ActionModel::Finish {
                result: match result {
                    Ok(r) => Ok(r.deep_view()),
                    Err(e) => Err(e@),
                },
            },
        }
    }
}

impl DeepView for SwitchEvent {
    type V = EventModel;

    open spec fn deep_view(&self) -> EventModel {
        match self {
            SwitchEvent::Start => EventModel::Start,
            SwitchEvent::IndexLoaded(ix) => EventModel::IndexLoaded(ix.deep_view()),
            SwitchEvent::AccountFileLoaded(v) => EventModel::AccountFileLoaded(v@),
            SwitchEvent::Done => EventModel::Done,
            SwitchEvent::Restarted(b) => EventModel::Restarted(*b),
            SwitchEvent::Failed(e) => EventModel::Failed(e@),
        }
    }
}

/// Whether `event` is an answer to the work asked for at `stage`.
pub open spec fn event_fits(stage: SwitchStage, event: EventModel) -> bool {
    match stage {
        SwitchStage::Begin => event is Start,
        SwitchStage::LoadingIndex => event is IndexLoaded || event is Failed,
        SwitchStage::LoadingAccount => event is AccountFileLoaded || event is Failed,
        SwitchStage::Restarting => event is Restarted || event is Failed,
        SwitchStage::Finished => false,
        SwitchStage::RollingBack => event is Done || event is Failed,
        _ => event is Done || event is Failed,
    }
}

// ---------------------------------------------------------------------
// The machine
// ---------------------------------------------------------------------

/// A time as RFC 3339 text in UTC with microseconds: the Unix epoch.
spec fn micros_tail() -> Seq<char> {
    "1970-01-01T00:00:00.000000Z"@
}

proof fn lemma_micros_tail()
    ensures
        rfc3339_micros_utc(micros_tail()),
{
    reveal_strlit("1970-01-01T00:00:00.000000Z");
    let t = micros_tail();
    assert(t.len() == 27);
    assert forall|i: int| t.len() - 7 <= i < t.len() - 1 implies crate::crypto::digit_at(t, i) by {}
}

/// A switch in progress.
#[derive(Debug)]
pub struct SwitchMachine {
    pub stage: SwitchStage,
    pub request: SwitchRequest,
    pub codex_app_path: String,
    pub account_id: String,
    pub index: Option<CodexAccountIndex>,
    pub summary: Option<CodexAccountSummary>,
    pub detail: Option<CodexAccountDetail>,
    pub error: Option<String>,
}

pub struct MachineModel {
    pub stage: SwitchStage,
    pub requested_id: Seq<char>,
    pub restart: bool,
    pub codex_app_path: Seq<char>,
    pub account_id: Seq<char>,
    pub index: Option<IndexView>,
    pub summary: Option<SummaryView>,
    pub detail: Option<DetailView>,
    pub error: Option<Seq<char>>,
}

impl DeepView for SwitchMachine {
    type V = MachineModel;

    open spec fn deep_view(&self) -> MachineModel {
        MachineModel {
            stage: self.stage,
            requested_id: self.request.account_id@,
            restart: self.request.restart,
            codex_app_path: self.codex_app_path@,
            account_id: self.account_id@,
            index: self.index.deep_view(),
            summary: self.summary.deep_view(),
            detail: self.detail.deep_view(),
            error: self.error.deep_view(),
        }
    }
}

/// The first index entry with id `id`.
pub open spec fn find_summary(s: Seq<SummaryView>, id: Seq<char>) -> Option<SummaryView>
    decreases s.len(),
{
    if s.len() == 0 {
        None
    } else if s[0].id == id {
        Some(s[0])
    } else {
        find_summary(s.drop_first(), id)
    }
}

/// The JSON number `json!(n)` makes.
pub open spec fn json_int(n: i64) -> JsonView {
    JsonView::Number(
        int_text(n as int),
        Some(n),
        if n >= 0 {
            Some(n as u64)
        } else {
            None
        },
    )
}

/// `d` marked as last used at `now`, in its fields and in its file.
pub open spec fn used_at(d: DetailView, now: i64) -> DetailView {
    DetailView { last_used: now, raw: object_set(d.raw, "last_used"@, json_int(now)), ..d }
}

pub open spec fn finish(m: MachineModel, result: Result<ResponseModel, Seq<char>>) -> (MachineModel, ActionModel) {
    (MachineModel { stage: SwitchStage::Finished, ..m }, ActionModel::Finish { result })
}

pub open spec fn roll_back(m: MachineModel, error: Seq<char>) -> (MachineModel, ActionModel) {
    (MachineModel { stage: SwitchStage::RollingBack, error: Some(error), ..m }, ActionModel::Rollback)
}

/// Whether a failure at `stage` is undone by a rollback: from creating the
/// Codex home to the restart, the snapshot has been taken and files may have
/// changed.
pub open spec fn rolls_back_at(stage: SwitchStage) -> bool {
    stage is CreatingHome || stage is WritingBundle || stage is SavingIndex || stage is SavingAccount
        || stage is Restarting
}

/// One step of a switch: the state after `event` arrives at `m`, and the work
/// asked for next. `now` is the clock when the step runs and `refreshed` its
/// RFC 3339 text.
pub open spec fn switch_transition(m: MachineModel, e: EventModel, now: i64, refreshed: Seq<char>) -> (
    MachineModel,
    ActionModel,
) {
    match (m.stage, e) {
        (SwitchStage::Begin, _) => {
            let id = trim(m.requested_id);
            if id.len() == 0 {
                finish(m, Err("accountId is required"@))
            } else {
                (
                    MachineModel { stage: SwitchStage::LoadingIndex, account_id: id, ..m },
                    ActionModel::LoadIndex,
                )
            }
        },
        (SwitchStage::LoadingIndex, EventModel::IndexLoaded(ix)) => match find_summary(
            ix.accounts,
            m.account_id,
        ) {
            None => finish(m, Err("account does not exist in CT index: "@ + m.account_id)),
            Some(s) => (
                MachineModel {
                    stage: SwitchStage::LoadingAccount,
                    index: Some(ix),
                    summary: Some(s),
                    ..m
                },
                ActionModel::LoadAccountFile { account_id: m.account_id },
            ),
        },
        (SwitchStage::LoadingAccount, EventModel::AccountFileLoaded(v)) => match detail_from(
            v,
            m.summary,
        ) {
            Err(x) => finish(m, Err(x)),
            Ok(d) => if !has_switch_material(d) {
                finish(
                    m,
                    Err(
                        "account "@ + d.email
                            + " does not contain enough saved Codex credential material"@,
                    ),
                )
            } else {
                (
                    MachineModel { stage: SwitchStage::Capturing, detail: Some(d), ..m },
                    ActionModel::CaptureRollback { account_id: d.id },
                )
            },
        },
        (SwitchStage::Capturing, EventModel::Done) => (
            MachineModel { stage: SwitchStage::BackingUp, ..m },
            ActionModel::Backup,
        ),
        (SwitchStage::BackingUp, EventModel::Done) => (
            MachineModel { stage: SwitchStage::CreatingHome, ..m },
            ActionModel::CreateCodexHome,
        ),
        (SwitchStage::CreatingHome, EventModel::Done) => {
            let d = m.detail->0;
            match auth_file_json(d, refreshed) {
                Err(x) => roll_back(m, x),
                Ok(a) => (
                    MachineModel { stage: SwitchStage::WritingBundle, ..m },
                    ActionModel::WriteBundle {
                        auth: a,
                        projection: projection_for(d, now),
                        config_if_present: config_edit_for(d, true),
                        config_if_missing: config_edit_for(d, false),
                    },
                ),
            }
        },
        (SwitchStage::WritingBundle, EventModel::Done) => (
            MachineModel { stage: SwitchStage::SavingIndex, index: None, ..m },
            ActionModel::SaveIndex {
                index: IndexView { current_account_id: Some(m.detail->0.id), ..m.index->0 },
            },
        ),
        (SwitchStage::SavingIndex, EventModel::Done) => {
            let d = used_at(m.detail->0, now);
            (
                MachineModel { stage: SwitchStage::SavingAccount, detail: Some(d), ..m },
                ActionModel::SaveAccountFile { account_id: d.id, raw: d.raw },
            )
        },
        (SwitchStage::SavingAccount, EventModel::Done) => if m.restart {
            (
                MachineModel { stage: SwitchStage::Restarting, ..m },
                ActionModel::Restart { app_path: m.codex_app_path },
            )
        } else {
            finish(
                m,
                Ok(
                    ResponseModel {
                        account: account_view_of(m.detail->0, Some(m.detail->0.id)),
                        restarted: false,
                    },
                ),
            )
        },
        (SwitchStage::Restarting, EventModel::Restarted(b)) => finish(
            m,
            Ok(
                ResponseModel {
                    account: account_view_of(m.detail->0, Some(m.detail->0.id)),
                    restarted: b,
                },
            ),
        ),
        (SwitchStage::RollingBack, _) => finish(m, Err(m.error->0)),
        (_, EventModel::Failed(x)) => if rolls_back_at(m.stage) {
            roll_back(m, x)
        } else {
            finish(m, Err(x))
        },
        _ => (m, ActionModel::Rollback),
    }
}

/// What each stage holds.
pub open spec fn machine_wf(m: MachineModel) -> bool {
    match m.stage {
        SwitchStage::Begin | SwitchStage::LoadingIndex | SwitchStage::Finished => true,
        SwitchStage::LoadingAccount => m.index is Some && m.summary is Some,
        SwitchStage::Capturing | SwitchStage::BackingUp | SwitchStage::CreatingHome
        | SwitchStage::WritingBundle => m.index is Some && m.detail is Some,
        SwitchStage::SavingIndex | SwitchStage::SavingAccount => m.detail is Some,
        SwitchStage::Restarting => m.detail is Some && m.restart,
        SwitchStage::RollingBack => m.error is Some,
    }
}

fn copy_summary(s: &CodexAccountSummary) -> (r: CodexAccountSummary)
    ensures
        r.deep_view() == s.deep_view(),
{
    CodexAccountSummary {
        id: s.id.clone(),
        email: s.email.clone(),
        plan_type: match &s.plan_type {
            Some(p) => Some(p.clone()),
            None => None,
        },
        subscription_active_until: match &s.subscription_active_until {
            Some(p) => Some(p.clone()),
            None => None,
        },
        created_at: s.created_at,
        last_used: s.last_used,
    }
}

/// The first index entry with id `id`.
fn find_summary_in(accounts: &Vec<CodexAccountSummary>, id: &str) -> (r: Option<CodexAccountSummary>)
    ensures
        r.deep_view() == find_summary(accounts.deep_view(), id@),
{
    let ghost s = accounts.deep_view();
    let mut i: usize = 0;
    assert(s.skip(0) =~= s);
    while i < accounts.len()
        invariant
            i <= accounts@.len(),
            s == accounts.deep_view(),
            find_summary(s, id@) == find_summary(s.skip(i as int), id@),
        decreases accounts@.len() - i,
    {
        let ghost rest = s.skip(i as int);
        assert(rest[0] == accounts@[i as int].deep_view());
        assert(rest.drop_first() =~= s.skip(i + 1));
        if str_eq(accounts[i].id.as_str(), id) {
            return Some(copy_summary(&accounts[i]));
        }
        i = i + 1;
    }
    None
}

impl SwitchMachine {
    /// A switch for `request`, with Codex installed at `codex_app_path`.
    pub fn new(request: SwitchRequest, codex_app_path: String) -> (m: SwitchMachine)
        ensures
            (m.stage is Begin),
            m.request == request,
            m.codex_app_path == codex_app_path,
            machine_wf(m.deep_view()),
    {
        SwitchMachine {
            stage: SwitchStage::Begin,
            request,
            codex_app_path,
            account_id: String::new(),
            index: None,
            summary: None,
            detail: None,
            error: None,
        }
    }

    /// Whether the switch is over.
    pub fn is_finished(&self) -> (r: bool)
        ensures
            r == (self.stage is Finished),
    {
        match self.stage {
            SwitchStage::Finished => true,
            _ => false,
        }
    }

    /// Whether `event` answers the work this switch asked for.
    pub fn accepts(&self, event: &SwitchEvent) -> (r: bool)
        ensures
            r == event_fits(self.stage, event.deep_view()),
    {
        match (&self.stage, event) {
            (SwitchStage::Begin, SwitchEvent::Start) => true,
            (SwitchStage::Begin, _) => false,
            (SwitchStage::Finished, _) => false,
            (_, SwitchEvent::Failed(_)) => true,
            (SwitchStage::LoadingIndex, SwitchEvent::IndexLoaded(_)) => true,
            (SwitchStage::LoadingAccount, SwitchEvent::AccountFileLoaded(_)) => true,
            (SwitchStage::Restarting, SwitchEvent::Restarted(_)) => true,
            (SwitchStage::LoadingIndex, _) => false,
            (SwitchStage::LoadingAccount, _) => false,
            (SwitchStage::Restarting, _) => false,
            (_, SwitchEvent::Done) => true,
            _ => false,
        }
    }

    /// Take `event`, the answer to the last piece of work, and say what to do
    /// next.
    pub fn step(&mut self, event: SwitchEvent) -> (action: SwitchAction)
        requires
            machine_wf(old(self).deep_view()),
            event_fits(old(self).stage, event.deep_view()),
        ensures
            machine_wf(final(self).deep_view()),
            exists|now: i64, refreshed: Seq<char>|
                rfc3339_micros_utc(refreshed) && (final(self).deep_view(), action.deep_view()) == switch_transition(
                    old(self).deep_view(),
                    event.deep_view(),
                    now,
                    refreshed,
                ),
    {
        let ghost m0 = self.deep_view();
        let ghost e0 = event.deep_view();
        proof {
            lemma_micros_tail();
        }
        match self.stage {
            SwitchStage::Begin => {
                let v = chars_of(self.request.account_id.as_str());
                let (a, b) = trim_bounds(v.as_slice());
                if a == b {
                    self.stage = SwitchStage::Finished;
                    let action = SwitchAction::Finish { result: Err(copy_str("accountId is required")) };
                    assert((self.deep_view(), action.deep_view()) == switch_transition(m0, e0, 0, micros_tail()));
                    return action;
                }
                self.account_id = string_of_range(v.as_slice(), a, b);
                self.stage = SwitchStage::LoadingIndex;
                let action = SwitchAction::LoadIndex;
                assert((self.deep_view(), action.deep_view()) == switch_transition(m0, e0, 0, micros_tail()));
                action
            },
            SwitchStage::RollingBack => {
                self.stage = SwitchStage::Finished;
                let e = match &self.error {
                    Some(e) => e.clone(),
                    None => String::new(),
                };
                let action = SwitchAction::Finish { result: Err(e) };
                assert((self.deep_view(), action.deep_view()) == switch_transition(m0, e0, 0, micros_tail()));
                action
            },
            _ => self.step_answer(event),
        }
    }

    fn step_answer(&mut self, event: SwitchEvent) -> (action: SwitchAction)
        requires
            machine_wf(old(self).deep_view()),
            event_fits(old(self).stage, event.deep_view()),
            !(old(self).stage is Begin),
            !(old(self).stage is RollingBack),
        ensures
            machine_wf(final(self).deep_view()),
            exists|now: i64, refreshed: Seq<char>|
                rfc3339_micros_utc(refreshed) && (final(self).deep_view(), action.deep_view()) == switch_transition(
                    old(self).deep_view(),
                    event.deep_view(),
                    now,
                    refreshed,
                ),
    {
        let ghost m0 = self.deep_view();
        let ghost e0 = event.deep_view();
        proof {
            lemma_micros_tail();
        }
        match event {
            SwitchEvent::Failed(x) => {
                let rolls = match self.stage {
                    SwitchStage::CreatingHome | SwitchStage::WritingBundle | SwitchStage::SavingIndex
                    | SwitchStage::SavingAccount | SwitchStage::Restarting => true,
                    _ => false,
                };
                if rolls {
                    self.stage = SwitchStage::RollingBack;
                    self.error = Some(x);
                    let action = SwitchAction::Rollback;
                    assert((self.deep_view(), action.deep_view()) == switch_transition(m0, e0, 0, micros_tail()));
                    action
                } else {
                    self.stage = SwitchStage::Finished;
                    let action = SwitchAction::Finish { result: Err(x) };
                    assert((self.deep_view(), action.deep_view()) == switch_transition(m0, e0, 0, micros_tail()));
                    action
                }
            },
            SwitchEvent::IndexLoaded(ix) => {
                match find_summary_in(&ix.accounts, self.account_id.as_str()) {
                    None => {
                        self.stage = SwitchStage::Finished;
                        let e = concat2("account does not exist in CT index: ", self.account_id.as_str());
                        let action = SwitchAction::Finish { result: Err(e) };
                        assert((self.deep_view(), action.deep_view()) == switch_transition(m0, e0, 0, micros_tail()));
                        action
                    },
                    Some(s) => {
                        self.stage = SwitchStage::LoadingAccount;
                        self.index = Some(ix);
                        self.summary = Some(s);
                        let action = SwitchAction::LoadAccountFile { account_id: self.account_id.clone() };
                        assert((self.deep_view(), action.deep_view()) == switch_transition(m0, e0, 0, micros_tail()));
                        action
                    },
                }
            },
            SwitchEvent::AccountFileLoaded(v) => {
                let outcome = CodexAccountDetail::from_value(v, self.summary.as_ref());
                match outcome {
                    Err(x) => {
                        self.stage = SwitchStage::Finished;
                        let action = SwitchAction::Finish { result: Err(x) };
                        assert((self.deep_view(), action.deep_view()) == switch_transition(m0, e0, 0, micros_tail()));
                        action
                    },
                    Ok(d) => {
                        if !d.has_switch_material() {
                            self.stage = SwitchStage::Finished;
                            let e = concat2("account ", d.email.as_str());
                            let e = concat2(
                                e.as_str(),
                                " does not contain enough saved Codex credential material",
                            );
                            let action = SwitchAction::Finish { result: Err(e) };
                            assert((self.deep_view(), action.deep_view()) == switch_transition(m0, e0, 0, micros_tail()));
                            action
                        } else {
                            let id = d.id.clone();
                            self.stage = SwitchStage::Capturing;
                            self.detail = Some(d);
                            let action = SwitchAction::CaptureRollback { account_id: id };
                            assert((self.deep_view(), action.deep_view()) == switch_transition(m0, e0, 0, micros_tail()));
                            action
                        }
                    },
                }
            },
            SwitchEvent::Restarted(b) => {
                self.stage = SwitchStage::Finished;
                let action = match &self.detail {
                    Some(d) => {
                        let view = d.to_view(Some(d.id.as_str()));
                        SwitchAction::Finish { result: Ok(SwitchResponse { account: view, restarted: b }) }
                    },
                    None => SwitchAction::Rollback,
                };
                assert((self.deep_view(), action.deep_view()) == switch_transition(m0, e0, 0, micros_tail()));
                action
            },
            SwitchEvent::Start => {
                assert(false);
                SwitchAction::Rollback
            },
            SwitchEvent::Done => self.step_done(),
        }
    }

    fn step_done(&mut self) -> (action: SwitchAction)
        requires
            machine_wf(old(self).deep_view()),
            event_fits(old(self).stage, EventModel::Done),
            !(old(self).stage is Begin),
            !(old(self).stage is RollingBack),
        ensures
            machine_wf(final(self).deep_view()),
            exists|now: i64, refreshed: Seq<char>|
                rfc3339_micros_utc(refreshed) && (final(self).deep_view(), action.deep_view()) == switch_transition(
                    old(self).deep_view(),
                    EventModel::Done,
                    now,
                    refreshed,
                ),
    {
        let ghost m0 = self.deep_view();
        proof {
            lemma_micros_tail();
        }
        match self.stage {
            SwitchStage::Capturing => {
                self.stage = SwitchStage::BackingUp;
                let action = SwitchAction::Backup;
                assert((self.deep_view(), action.deep_view()) == switch_transition(m0, EventModel::Done, 0, micros_tail()));
                action
            },
            SwitchStage::BackingUp => {
                self.stage = SwitchStage::CreatingHome;
                let action = SwitchAction::CreateCodexHome;
                assert((self.deep_view(), action.deep_view()) == switch_transition(m0, EventModel::Done, 0, micros_tail()));
                action
            },
            SwitchStage::CreatingHome => {
                let refreshed = crate::crypto::now_rfc3339_micros();
                let now = crate::crypto::now_timestamp();
                let (action, failed) = match &self.detail {
                    Some(d) => match crate::accounts::build_auth_file_value_at(d, refreshed.as_str()) {
                        Err(x) => (SwitchAction::Rollback, Some(x)),
                        Ok(auth) => (
                            SwitchAction::WriteBundle {
                                auth,
                                projection: managed_projection(d, now),
                                config_if_present: config_toml_edit(d, true),
                                config_if_missing: config_toml_edit(d, false),
                            },
                            None,
                        ),
                    },
                    None => (SwitchAction::Rollback, None),
                };
                match failed {
                    Some(x) => {
                        self.stage = SwitchStage::RollingBack;
                        self.error = Some(x);
                    },
                    None => {
                        self.stage = SwitchStage::WritingBundle;
                    },
                }
                assert((self.deep_view(), action.deep_view()) == switch_transition(m0, EventModel::Done, now, refreshed@));
                action
            },
            SwitchStage::WritingBundle => {
                let index = self.index.take();
                let action = match (index, &self.detail) {
                    (Some(mut ix), Some(d)) => {
                        ix.current_account_id = Some(d.id.clone());
                        SwitchAction::SaveIndex { index: ix }
                    },
                    _ => SwitchAction::Rollback,
                };
                self.stage = SwitchStage::SavingIndex;
                assert((self.deep_view(), action.deep_view()) == switch_transition(m0, EventModel::Done, 0, micros_tail()));
                action
            },
            SwitchStage::SavingIndex => {
                let now = crate::crypto::now_timestamp();
                let detail = self.detail.take();
                let action = match detail {
                    Some(mut d) => {
                        d.last_used = now;
                        d.raw.set_member("last_used", JsonValue::integer(now));
                        let action = SwitchAction::SaveAccountFile {
                            account_id: d.id.clone(),
                            raw: d.raw.copy(),
                        };
                        self.detail = Some(d);
                        action
                    },
                    None => SwitchAction::Rollback,
                };
                self.stage = SwitchStage::SavingAccount;
                assert((self.deep_view(), action.deep_view()) == switch_transition(m0, EventModel::Done, now, micros_tail()));
                action
            },
            SwitchStage::SavingAccount => {
                if self.request.restart {
                    self.stage = SwitchStage::Restarting;
                    let action = SwitchAction::Restart { app_path: self.codex_app_path.clone() };
                    assert((self.deep_view(), action.deep_view()) == switch_transition(m0, EventModel::Done, 0, micros_tail()));
                    action
                } else {
                    self.stage = SwitchStage::Finished;
                    let action = match &self.detail {
                        Some(d) => {
                            let view = d.to_view(Some(d.id.as_str()));
                            SwitchAction::Finish {
                                result: Ok(SwitchResponse { account: view, restarted: false }),
                            }
                        },
                        None => SwitchAction::Rollback,
                    };
                    assert((self.deep_view(), action.deep_view()) == switch_transition(m0, EventModel::Done, 0, micros_tail()));
                    action
                }
            },
            _ => {
                assert(false);
                SwitchAction::Rollback
            },
        }
    }
}

// ---------------------------------------------------------------------
// Laws of a switch
// ---------------------------------------------------------------------

/// Once the snapshot is taken and files may have changed, a failure is rolled
/// back, and the switch then ends with that failure whatever the rollback
/// gives.
pub proof fn lemma_failure_is_rolled_back(
    m: MachineModel,
    error: Seq<char>,
    now: i64,
    refreshed: Seq<char>,
    after: EventModel,
    now2: i64,
    refreshed2: Seq<char>,
)
    requires
        rolls_back_at(m.stage),
    ensures
        (switch_transition(m, EventModel::Failed(error), now, refreshed).1 is Rollback),
        (switch_transition(m, EventModel::Failed(error), now, refreshed).0.stage is RollingBack),
        switch_transition(
            switch_transition(m, EventModel::Failed(error), now, refreshed).0,
            after,
            now2,
            refreshed2,
        ).1 == (ActionModel::Finish { result: Err(error) }),
{
}

/// A failure before the snapshot is taken, or while taking it or the backup,
/// ends the switch with that failure and rolls nothing back.
pub proof fn lemma_early_failure_ends_switch(m: MachineModel, error: Seq<char>, now: i64, refreshed: Seq<char>)
    requires
        (m.stage is LoadingIndex || m.stage is LoadingAccount || m.stage is Capturing
            || m.stage is BackingUp),
    ensures
        switch_transition(m, EventModel::Failed(error), now, refreshed).1 == (ActionModel::Finish {
            result: Err(error),
        }),
{
}

/// The index is saved with the switched-to account as current and every entry
/// as it was loaded.
pub proof fn lemma_saved_index_marks_account(m: MachineModel, now: i64, refreshed: Seq<char>)
    requires
        m.stage is WritingBundle,
        machine_wf(m),
    ensures
        (switch_transition(m, EventModel::Done, now, refreshed).1 matches ActionModel::SaveIndex {
            index,
        } && index.current_account_id == Some(m.detail->0.id) && index.accounts == m.index->0.accounts
            && index.version == m.index->0.version),
{
}

/// The account file is saved with `last_used` set to the time of the step, in
/// the file as in the account.
pub proof fn lemma_saved_account_is_marked_used(m: MachineModel, now: i64, refreshed: Seq<char>)
    requires
        m.stage is SavingIndex,
        machine_wf(m),
    ensures
        (switch_transition(m, EventModel::Done, now, refreshed).1 matches ActionModel::SaveAccountFile {
            account_id,
            raw,
        } && account_id == m.detail->0.id && raw == object_set(m.detail->0.raw, "last_used"@, json_int(now))),
{
}

/// A switch succeeds only after the account file is saved (and, where asked,
/// Codex restarted); the account it reports is the current one, and it says it
/// restarted Codex only where a restart was asked for and done.
pub proof fn lemma_success_follows_all_writes(m: MachineModel, e: EventModel, now: i64, refreshed: Seq<char>)
    requires
        machine_wf(m),
        event_fits(m.stage, e),
        (switch_transition(m, e, now, refreshed).1 matches ActionModel::Finish { result } && result is Ok),
    ensures
        ((m.stage is SavingAccount && !m.restart) || (m.stage is Restarting && e is Restarted)),
        (switch_transition(m, e, now, refreshed).1 matches ActionModel::Finish { result } && result
            matches Ok(r) && r.account.is_current && (r.restarted ==> m.restart) && r.account
            == account_view_of(m.detail->0, Some(m.detail->0.id))),
{
}


/// The index lookup finds an entry whose id is exactly the one asked for,
/// and finds none only where no entry has it.
proof fn lemma_find_summary(s: Seq<SummaryView>, id: Seq<char>)
    ensures
        find_summary(s, id) matches Some(x) ==> x.id == id && s.contains(x),
        find_summary(s, id) is None <==> forall|k: int| 0 <= k < s.len() ==> (#[trigger] s[k]).id != id,
    decreases s.len(),
{
    if s.len() > 0 {
        lemma_find_summary(s.drop_first(), id);
        if s[0].id != id {
            assert forall|k: int| 0 <= k < s.len() && (#[trigger] s[k]).id == id implies k > 0 && s.drop_first()[k - 1].id == id by {}
            match find_summary(s, id) {
                Some(x) => {
                    let j = choose|j: int| 0 <= j < s.drop_first().len() && s.drop_first()[j] == x;
                    assert(s[j + 1] == x);
                },
                None => {},
            }
        }
    }
}

/// A switch goes to exactly the account asked for: the request's id, trimmed,
/// must be an index entry's id, character for character; that entry is the
/// one used, and its file is the one read. A request for an id that no entry
/// has ends the switch before any file is read.
pub proof fn lemma_switch_targets_requested_account(
    m: MachineModel,
    ix: IndexView,
    now: i64,
    refreshed: Seq<char>,
)
    requires
        m.stage is Begin,
        trim(m.requested_id).len() > 0,
    ensures
        ({
            let m1 = switch_transition(m, EventModel::Start, now, refreshed).0;
            let step = switch_transition(m1, EventModel::IndexLoaded(ix), now, refreshed);
            &&& m1.account_id == trim(m.requested_id)
            &&& (forall|k: int| 0 <= k < ix.accounts.len() ==> (#[trigger] ix.accounts[k]).id
                != m1.account_id) ==> step.1 == (ActionModel::Finish {
                result: Err("account does not exist in CT index: "@ + m1.account_id),
            })
            &&& (exists|k: int| 0 <= k < ix.accounts.len() && (#[trigger] ix.accounts[k]).id
                == m1.account_id) ==> (step.1 == (ActionModel::LoadAccountFile {
                account_id: m1.account_id,
            }) && (step.0.summary matches Some(x) && x.id == m1.account_id && ix.accounts.contains(x)))
        }),
{
    let m1 = switch_transition(m, EventModel::Start, now, refreshed).0;
    lemma_find_summary(ix.accounts, m1.account_id);
}


/// The outside work of a switch runs in one order: the account is loaded,
/// the rollback snapshot taken, the backup made, and only then is anything
/// written, each write after the last one succeeded: Codex's home, its login
/// bundle, the index, the account file, and last the restart.
pub proof fn lemma_stages_run_in_order(m: MachineModel, e: EventModel, now: i64, refreshed: Seq<char>)
    requires
        machine_wf(m),
        event_fits(m.stage, e),
    ensures
        ({
            let next = switch_transition(m, e, now, refreshed).0;
            &&& next.stage is Capturing ==> (m.stage is LoadingAccount && e is AccountFileLoaded)
            &&& next.stage is BackingUp ==> (m.stage is Capturing && e is Done)
            &&& next.stage is CreatingHome ==> (m.stage is BackingUp && e is Done)
            &&& next.stage is WritingBundle ==> (m.stage is CreatingHome && e is Done)
            &&& next.stage is SavingIndex ==> (m.stage is WritingBundle && e is Done)
            &&& next.stage is SavingAccount ==> (m.stage is SavingIndex && e is Done)
            &&& next.stage is Restarting ==> (m.stage is SavingAccount && e is Done)
        }),
        ({
            let a = switch_transition(m, e, now, refreshed).1;
            &&& a is CaptureRollback ==> m.stage is LoadingAccount
            &&& a is Backup ==> m.stage is Capturing
            &&& a is CreateCodexHome ==> m.stage is BackingUp
            &&& a is WriteBundle ==> m.stage is CreatingHome
            &&& a is SaveIndex ==> m.stage is WritingBundle
            &&& a is SaveAccountFile ==> m.stage is SavingIndex
            &&& a is Restart ==> m.stage is SavingAccount
        }),
{
}


/// Every switch to an account that holds its credentials writes the login
/// bundle: `auth.json` and the Keychain entry `Codex Auth` get the same
/// payload, for API-key and OAuth accounts alike.
pub proof fn lemma_bundle_written_for_every_account(m: MachineModel, now: i64, refreshed: Seq<char>)
    requires
        m.stage is CreatingHome,
        machine_wf(m),
        has_switch_material(m.detail->0),
    ensures
        (switch_transition(m, EventModel::Done, now, refreshed).1 matches ActionModel::WriteBundle {
            auth,
            ..
        } && auth_file_json(m.detail->0, refreshed) == Ok::<JsonView, Seq<char>>(auth)),
{
}


/// The `config.toml` edits a switch hands over with the login bundle: an
/// existing file is always edited; a missing one is written only with the
/// same edit an existing one gets; an OAuth account clears the provider
/// settings of an existing file and creates none; an API-key account with a
/// base URL and no custom mode points `openai_base_url` at that URL (trimmed,
/// without trailing `/`) whether or not the file exists.
pub proof fn lemma_bundle_config_edits(m: MachineModel, now: i64, refreshed: Seq<char>)
    requires
        m.stage is CreatingHome,
        machine_wf(m),
    ensures
        (switch_transition(m, EventModel::Done, now, refreshed).1 matches ActionModel::WriteBundle {
            config_if_present,
            config_if_missing,
            ..
        } ==> {
            let d = m.detail->0;
            &&& !(config_if_present is Skip)
            &&& (!(config_if_missing is Skip) ==> config_if_present == config_if_missing)
            &&& (!is_api_key_auth(d) ==> (config_if_present is ClearProvider && config_if_missing is Skip))
            &&& (is_api_key_auth(d) && (d.api_base_url matches Some(u) && !is_blank(u)) && !custom_mode(d)
                ==> {
                &&& config_if_present == (ConfigEditModel::OpenAiBaseUrl {
                    base_url: strip_end(trim(d.api_base_url->0), '/'),
                })
                &&& config_if_missing == config_if_present
            })
        }),
{
    lemma_config_edit_follows_account(m.detail->0);
}

} // verus!
