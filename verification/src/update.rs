//! Updates: what the updater reports of the two channels, whether the user is asked, and how an
//! update of the kernel runtime proceeds.
use crate::bytes::{byte_len, byte_slice, is_on_boundary, on_boundary, slice_bytes};
use crate::config::{AppSettings, AppSettingsView};
use crate::json::{bool_member, member, number_member, parse_json, text_member, Json, JsonView};
use crate::number::{debug_code, debug_code_of, signed_decimal};
use crate::outside::{json_parsed, text_from_utf8_lossy, utf8_lossy};
use crate::text::{borrowed, chars_of, has_prefix, last_chars, lines, lines_of, or_text, pieces, same_option, starts_with, str_eq, string_of, tail_of, text_or, trim, trim_str, trimmed};
use vstd::prelude::*;
use vstd::utf8::encode_utf8;

verus! {

/// How long the application waits for the kernel before it drops the automatic check, in
/// nanoseconds.
pub const READY_WAIT_NANOS: u128 = 150_000_000_000;

/// How long after the kernel is ready the automatic check starts, in seconds.
pub const AUTO_CHECK_DELAY_SECS: u64 = 3;

/// How many bytes of the updater's error output are kept.
pub const STDERR_TAIL_BYTES: usize = 2000;

// ---------------------------------------------------------------------------
// State
// ---------------------------------------------------------------------------

/// What is known of one channel: the kernel's or the application's.
#[derive(Clone, Debug, PartialEq)]
pub struct ChannelInfo {
    pub current: String,
    pub latest: Option<String>,
    pub update_available: bool,
    /// Whether the user is asked: there is an update, and it is not one that is skipped.
    pub prompt: bool,
    pub url: Option<String>,
    pub engines_node: Option<String>,
    pub node_sufficient: Option<bool>,
    pub reason: Option<String>,
}

/// The mathematical value of a [`ChannelInfo`].
pub struct ChannelInfoView {
    pub current: Seq<char>,
    pub latest: Option<Seq<char>>,
    pub update_available: bool,
    pub prompt: bool,
    pub url: Option<Seq<char>>,
    pub engines_node: Option<Seq<char>>,
    pub node_sufficient: Option<bool>,
    pub reason: Option<Seq<char>>,
}

impl DeepView for ChannelInfo {
    type V = ChannelInfoView;

    open spec fn deep_view(&self) -> ChannelInfoView {
        ChannelInfoView {
            current: self.current@,
            latest: self.latest.deep_view(),
            update_available: self.update_available,
            prompt: self.prompt,
            url: self.url.deep_view(),
            engines_node: self.engines_node.deep_view(),
            node_sufficient: self.node_sufficient,
            reason: self.reason.deep_view(),
        }
    }
}

/// Where an update stands.
#[derive(Clone, Debug, PartialEq)]
pub enum UpdatePhase {
    Idle,
    Checking,
    Applying { phase: String, pct: u32, message: String },
    PendingRestart { dsh_version: String },
    Failed { error: String },
}

/// The mathematical value of an [`UpdatePhase`].
pub enum UpdatePhaseView {
    Idle,
    Checking,
    Applying { phase: Seq<char>, pct: u32, message: Seq<char> },
    PendingRestart { dsh_version: Seq<char> },
    Failed { error: Seq<char> },
}

impl DeepView for UpdatePhase {
    type V = UpdatePhaseView;

    open spec fn deep_view(&self) -> UpdatePhaseView {
        match *self {
            UpdatePhase::Idle => UpdatePhaseView::Idle,
            UpdatePhase::Checking => UpdatePhaseView::Checking,
            UpdatePhase::Applying { phase, pct, message } => UpdatePhaseView::Applying {
                phase: phase@,
                pct,
                message: message@,
            },
            UpdatePhase::PendingRestart { dsh_version } => UpdatePhaseView::PendingRestart {
                dsh_version: dsh_version@,
            },
            UpdatePhase::Failed { error } => UpdatePhaseView::Failed { error: error@ },
        }
    }
}

/// What the update panel shows.
#[derive(Clone, Debug)]
pub struct UpdateStatus {
    pub phase: UpdatePhase,
    pub kernel: Option<ChannelInfo>,
    pub app: Option<ChannelInfo>,
    /// Whether the last check was asked for by hand.
    pub manual: bool,
}

/// The mathematical value of an [`UpdateStatus`].
pub struct UpdateStatusView {
    pub phase: UpdatePhaseView,
    pub kernel: Option<ChannelInfoView>,
    pub app: Option<ChannelInfoView>,
    pub manual: bool,
}

impl View for UpdateStatus {
    type V = UpdateStatusView;

    open spec fn view(&self) -> UpdateStatusView {
        UpdateStatusView {
            phase: self.phase.deep_view(),
            kernel: self.kernel.deep_view(),
            app: self.app.deep_view(),
            manual: self.manual,
        }
    }
}

impl Default for UpdateStatus {
    fn default() -> (status: UpdateStatus)
        ensures
            status@ == (UpdateStatusView {
                phase: UpdatePhaseView::Idle,
                kernel: None,
                app: None,
                manual: false,
            }),
    {
        UpdateStatus { phase: UpdatePhase::Idle, kernel: None, app: None, manual: false }
    }
}

/// Whether the updater is at work.
pub open spec fn busy(phase: UpdatePhaseView) -> bool {
    phase is Checking || phase is Applying
}

fn is_busy(phase: &UpdatePhase) -> (b: bool)
    ensures
        b == busy(phase.deep_view()),
{
    match phase {
        UpdatePhase::Checking => true,
        UpdatePhase::Applying { .. } => true,
        _ => false,
    }
}

/// Shows an error.
pub fn set_failed(status: &mut UpdateStatus, error: String)
    ensures
        final(status)@ == (UpdateStatusView {
            phase: UpdatePhaseView::Failed { error: error@ },
            ..old(status)@
        }),
{
    status.phase = UpdatePhase::Failed { error };
}

// ---------------------------------------------------------------------------
// Asking the user
// ---------------------------------------------------------------------------

/// A channel with its `prompt` set: there is an update, and its version is not the skipped one.
pub open spec fn prompted(
    info: Option<ChannelInfoView>,
    skipped: Option<Seq<char>>,
) -> Option<ChannelInfoView> {
    match info {
        Some(channel) => Some(
            ChannelInfoView {
                prompt: channel.update_available && channel.latest != skipped,
                ..channel
            },
        ),
        None => None,
    }
}

/// Whether the user is asked about a channel.
pub open spec fn prompts(info: Option<ChannelInfoView>) -> bool {
    info matches Some(channel) && channel.prompt
}

/// Sets whether the user is asked about a channel.
pub fn compute_prompt(info: &mut Option<ChannelInfo>, skipped: Option<&str>)
    ensures
        final(info).deep_view() == prompted(old(info).deep_view(), skipped.deep_view()),
{
    if let Some(mut channel) = info.take() {
        channel.prompt = channel.update_available && !same_option(
            borrowed(&channel.latest),
            skipped,
        );
        *info = Some(channel);
    }
}

fn is_prompting(info: &Option<ChannelInfo>) -> (b: bool)
    ensures
        b == prompts(info.deep_view()),
{
    match info {
        Some(channel) => channel.prompt,
        None => false,
    }
}

/// The status with both prompts set by what is skipped.
pub open spec fn with_prompts(
    status: UpdateStatusView,
    settings: AppSettingsView,
) -> UpdateStatusView {
    UpdateStatusView {
        kernel: prompted(status.kernel, settings.skipped_kernel_version),
        app: prompted(status.app, settings.skipped_app_version),
        ..status
    }
}

// ---------------------------------------------------------------------------
// What the updater prints
// ---------------------------------------------------------------------------

/// The document on a line of the updater's output, where the line is an object.
pub open spec fn object_on(line: Seq<char>) -> Option<JsonView> {
    if has_prefix(trimmed(line), "{"@) {
        json_parsed(trimmed(line))
    } else {
        None
    }
}

/// The last of the documents that are there.
pub open spec fn last_found(found: Seq<Option<JsonView>>) -> Option<JsonView>
    decreases found.len(),
{
    if found.len() == 0 {
        None
    } else if found.last() is Some {
        found.last()
    } else {
        last_found(found.drop_last())
    }
}

/// The documents on the lines of a text.
pub open spec fn objects_on(list: Seq<Seq<char>>) -> Seq<Option<JsonView>> {
    Seq::new(list.len(), |i: int| object_on(list[i]))
}

/// The last of the documents that are there.
pub fn pick_last(found: Vec<Option<Json>>) -> (last: Option<Json>)
    ensures
        last.deep_view() == last_found(found.deep_view()),
{
    let ghost all = found.deep_view();
    let mut rest = found;
    while rest.len() > 0
        invariant
            all == found.deep_view(),
            last_found(rest.deep_view()) == last_found(all),
        decreases rest@.len(),
    {
        let ghost before = rest.deep_view();
        let last = rest.pop();
        assert(before.drop_last() == rest.deep_view());
        if let Some(Some(json)) = last {
            assert(before.last() == Some(json).deep_view());
            return Some(json);
        }
    }
    None
}

/// The last object that the updater printed on a line of its own.
pub fn parse_last_json(text: &str) -> (value: Result<Json, String>)
    ensures
        match last_found(objects_on(lines(text@))) {
            Some(found) => value matches Ok(json) && json@ == found,
            None => value matches Err(e) && e@ == "更新器未输出有效 JSON 结果"@,
        },
{
    let list = lines_of(&chars_of(text));
    let mut found: Vec<Option<Json>> = Vec::new();
    let mut i: usize = 0;
    while i < list.len()
        invariant
            i <= list@.len(),
            found@.len() == i,
            forall|k: int|
                0 <= k < i ==> #[trigger] found.deep_view()[k] == object_on(pieces(list@)[k]),
        decreases list@.len() - i,
    {
        let line = trim(&list[i]);
        let ghost before = found.deep_view();
        let object = if starts_with(&line, "{") {
            parse_json(string_of(&line).as_str())
        } else {
            None
        };
        assert(object.deep_view() == object_on(list@[i as int]@));
        found.push(object);
        assert(found.deep_view() == before.push(object.deep_view()));
        i = i + 1;
    }
    assert(found.deep_view() == objects_on(pieces(list@)));
    match pick_last(found) {
        Some(json) => Ok(json),
        None => Err("更新器未输出有效 JSON 结果".to_string()),
    }
}

/// The text under `key`.
pub fn str_field(value: &Json, key: &str) -> (text: Option<String>)
    ensures
        text.deep_view() == text_member(value@, key@),
{
    value.get_text(key)
}

/// What the updater reports of a channel.
pub open spec fn channel_of(value: JsonView, fallback: Seq<char>) -> ChannelInfoView {
    ChannelInfoView {
        current: text_or(text_member(value, "current"@), fallback),
        latest: text_member(value, "latest"@),
        update_available: bool_member(value, "updateAvailable"@) == Some(true),
        prompt: false,
        url: text_member(value, "url"@),
        engines_node: text_member(value, "enginesNode"@),
        node_sufficient: bool_member(value, "nodeSufficient"@),
        reason: text_member(value, "reason"@),
    }
}

/// What the updater reports of a channel. Whether the user is asked is left open.
pub fn parse_channel(value: &Json, current_fallback: &str) -> (info: ChannelInfo)
    ensures
        info.deep_view() == channel_of(value@, current_fallback@),
{
    ChannelInfo {
        current: or_text(str_field(value, "current"), current_fallback),
        latest: str_field(value, "latest"),
        update_available: match value.get_bool("updateAvailable") {
            Some(flag) => flag,
            None => false,
        },
        prompt: false,
        url: str_field(value, "url"),
        engines_node: str_field(value, "enginesNode"),
        node_sufficient: value.get_bool("nodeSufficient"),
        reason: str_field(value, "reason"),
    }
}

// ---------------------------------------------------------------------------
// Checking
// ---------------------------------------------------------------------------

/// Whether the updater is told to take the proxy from the environment, where either spelling of
/// the variable is set.
pub fn needs_env_proxy(upper_set: bool, lower_set: bool) -> (needed: bool)
    ensures
        needed == (upper_set || lower_set),
{
    upper_set || lower_set
}

/// The error for an updater that could not be started.
pub fn start_error(program: &str, reason: &str) -> (error: String)
    ensures
        error@ == "无法启动更新器（"@ + program@ + "）："@ + reason@,
{
    let mut error = "无法启动更新器（".to_string();
    error.append(program);
    error.append("）：");
    error.append(reason);
    error
}

/// The arguments that let the updater check both channels.
pub fn check_args(script: String, kernel_current: &str, app_current: &str) -> (args: Vec<String>)
    ensures
        args.deep_view() == seq![
            script@,
            "check"@,
            "--kernel-current"@,
            kernel_current@,
            "--app-current"@,
            app_current@,
        ],
{
    vec![
        script,
        "check".to_string(),
        "--kernel-current".to_string(),
        kernel_current.to_string(),
        "--app-current".to_string(),
        app_current.to_string(),
    ]
}

/// The channel that the updater reports under `key`.
pub open spec fn channel_under(
    value: JsonView,
    key: Seq<char>,
    fallback: Seq<char>,
) -> Option<ChannelInfoView> {
    match member(value, key) {
        Some(found) => Some(channel_of(found, fallback)),
        None => None,
    }
}

/// The two channels of the updater's report: the kernel's, then the application's.
pub fn channels_of(value: &Json, kernel_current: &str, app_current: &str) -> (channels: (
    Option<ChannelInfo>,
    Option<ChannelInfo>,
))
    ensures
        channels.0.deep_view() == channel_under(value@, "kernel"@, kernel_current@),
        channels.1.deep_view() == channel_under(value@, "app"@, app_current@),
{
    let kernel = match value.get("kernel") {
        Some(found) => Some(parse_channel(found, kernel_current)),
        None => None,
    };
    let app = match value.get("app") {
        Some(found) => Some(parse_channel(found, app_current)),
        None => None,
    };
    (kernel, app)
}

/// The error for an updater that printed no report.
pub open spec fn no_report_text(stderr: Seq<char>, code: Option<i32>) -> Seq<char> {
    "更新器未输出有效 JSON 结果"@ + "（exit="@ + debug_code(code) + "，stderr 尾部："@
        + last_chars(stderr, 300) + "）"@
}

/// Whether `channels` is what a check comes to: the two channels of the last object that the updater
/// printed on a line of its own, or why there is none.
pub open spec fn is_check_outcome(
    stdout: Seq<char>,
    stderr: Seq<char>,
    code: Option<i32>,
    kernel_current: Seq<char>,
    app_current: Seq<char>,
    channels: Result<(Option<ChannelInfo>, Option<ChannelInfo>), String>,
) -> bool {
    match last_found(objects_on(lines(stdout))) {
        Some(value) => channels matches Ok(pair) && pair.0.deep_view() == channel_under(
            value,
            "kernel"@,
            kernel_current,
        ) && pair.1.deep_view() == channel_under(value, "app"@, app_current),
        None => channels matches Err(e) && e@ == no_report_text(stderr, code),
    }
}

/// The two channels that the updater reported in its output, or why it reported none. The output is
/// taken as the updater wrote it.
pub fn run_check_bytes(
    stdout: &[u8],
    stderr: &[u8],
    code: Option<i32>,
    kernel_current: &str,
    app_current: &str,
) -> (channels: Result<(Option<ChannelInfo>, Option<ChannelInfo>), String>)
    ensures
        is_check_outcome(
            utf8_lossy(stdout@),
            utf8_lossy(stderr@),
            code,
            kernel_current@,
            app_current@,
            channels,
        ),
{
    run_check(
        text_from_utf8_lossy(stdout).as_str(),
        text_from_utf8_lossy(stderr).as_str(),
        code,
        kernel_current,
        app_current,
    )
}

/// The two channels that the updater reported in its output, or why it reported none.
pub fn run_check(
    stdout: &str,
    stderr: &str,
    code: Option<i32>,
    kernel_current: &str,
    app_current: &str,
) -> (channels: Result<(Option<ChannelInfo>, Option<ChannelInfo>), String>)
    ensures
        is_check_outcome(stdout@, stderr@, code, kernel_current@, app_current@, channels),
{
    match parse_last_json(stdout) {
        Ok(value) => Ok(channels_of(&value, kernel_current, app_current)),
        Err(reason) => {
            let mut error = reason;
            error.append("（exit=");
            error.append(debug_code_of(code).as_str());
            error.append("，stderr 尾部：");
            error.append(tail_of(stderr, 300).as_str());
            error.append("）");
            Err(error)
        },
    }
}

/// What the start of a check leads to.
#[derive(Clone, Copy, Debug, PartialEq, Eq)]
pub enum CheckStart {
    /// The updater is to be run.
    Run,
    /// The updater is at work already; the panel is shown.
    ShowPanel,
    /// The updater is at work already.
    Nothing,
}

/// The start of a check: the status after it, and what it leads to.
pub open spec fn check_begun(status: UpdateStatusView, manual: bool) -> (
    UpdateStatusView,
    CheckStart,
) {
    if !busy(status.phase) {
        (UpdateStatusView { phase: UpdatePhaseView::Checking, manual, ..status }, CheckStart::Run)
    } else if manual {
        (status, CheckStart::ShowPanel)
    } else {
        (status, CheckStart::Nothing)
    }
}

/// Starts a check, unless the updater is at work. A check by hand then at least shows the panel.
pub fn begin_check(status: &mut UpdateStatus, manual: bool) -> (start: CheckStart)
    ensures
        (final(status)@, start) == check_begun(old(status)@, manual),
{
    if is_busy(&status.phase) {
        return if manual {
            CheckStart::ShowPanel
        } else {
            CheckStart::Nothing
        };
    }
    status.phase = UpdatePhase::Checking;
    status.manual = manual;
    CheckStart::Run
}

/// Takes in the outcome of a check. The panel is shown where the user asked for the check, or is
/// asked about a channel.
pub fn finish_check(
    status: &mut UpdateStatus,
    settings: &AppSettings,
    outcome: Result<(Option<ChannelInfo>, Option<ChannelInfo>), String>,
) -> (show_panel: bool)
    ensures
        match outcome {
            Ok(channels) => {
                &&& final(status)@ == with_prompts(
                    UpdateStatusView {
                        phase: UpdatePhaseView::Idle,
                        kernel: channels.0.deep_view(),
                        app: channels.1.deep_view(),
                        manual: old(status)@.manual,
                    },
                    settings@,
                )
                &&& show_panel == (old(status)@.manual || prompts(final(status)@.kernel)
                    || prompts(final(status)@.app))
            },
            Err(error) => {
                &&& final(status)@ == (UpdateStatusView {
                    phase: UpdatePhaseView::Failed { error: error@ },
                    ..old(status)@
                })
                &&& show_panel == old(status)@.manual
            },
        },
{
    match outcome {
        Ok((kernel, app)) => {
            let mut kernel = kernel;
            let mut app = app;
            compute_prompt(&mut kernel, borrowed(&settings.skipped_kernel_version));
            compute_prompt(&mut app, borrowed(&settings.skipped_app_version));
            status.kernel = kernel;
            status.app = app;
            status.phase = UpdatePhase::Idle;
            status.manual || is_prompting(&status.kernel) || is_prompting(&status.app)
        },
        Err(error) => {
            status.phase = UpdatePhase::Failed { error };
            status.manual
        },
    }
}

/// What the automatic check does while the kernel starts.
#[derive(Clone, Copy, Debug, PartialEq, Eq)]
pub enum AutoCheck {
    /// The kernel is ready: after the delay, check.
    Check,
    /// The kernel was not ready in time: no check this time.
    Skip,
    /// Look again after this time.
    Wait { millis: u64 },
}

/// What the automatic check does after it has waited for the kernel for this many nanoseconds.
pub fn auto_check_step(ready: bool, waited_nanos: u128) -> (next: AutoCheck)
    ensures
        next == (if ready {
            AutoCheck::Check
        } else if waited_nanos >= READY_WAIT_NANOS {
            AutoCheck::Skip
        } else {
            AutoCheck::Wait { millis: 500 }
        }),
{
    if ready {
        AutoCheck::Check
    } else if waited_nanos >= READY_WAIT_NANOS {
        AutoCheck::Skip
    } else {
        AutoCheck::Wait { millis: 500 }
    }
}

// ---------------------------------------------------------------------------
// Applying an update of the kernel
// ---------------------------------------------------------------------------

/// The latest version of a channel.
pub open spec fn latest_of(info: Option<ChannelInfoView>) -> Option<Seq<char>> {
    match info {
        Some(channel) => channel.latest,
        None => None,
    }
}

fn latest(info: &Option<ChannelInfo>) -> (version: Option<String>)
    ensures
        version.deep_view() == latest_of(info.deep_view()),
{
    match info {
        Some(channel) => match &channel.latest {
            Some(version) => Some(version.clone()),
            None => None,
        },
        None => None,
    }
}

/// The start of an update: the status after it, and the version to update to where there is
/// anything to do.
pub open spec fn apply_begun(status: UpdateStatusView) -> (UpdateStatusView, Option<Seq<char>>) {
    let version = latest_of(status.kernel);
    if busy(status.phase) || version is None {
        (status, None)
    } else {
        (
            UpdateStatusView {
                phase: UpdatePhaseView::Applying {
                    phase: "prepare"@,
                    pct: 0,
                    message: "准备更新…"@,
                },
                ..status
            },
            version,
        )
    }
}

/// Starts an update of the kernel to its latest version, unless the updater is at work or no
/// latest version is known.
pub fn begin_apply(status: &mut UpdateStatus) -> (version: Option<String>)
    ensures
        (final(status)@, version.deep_view()) == apply_begun(old(status)@),
{
    if is_busy(&status.phase) {
        return None;
    }
    let version = latest(&status.kernel);
    if version.is_some() {
        status.phase =
        UpdatePhase::Applying {
            phase: "prepare".to_string(),
            pct: 0,
            message: "准备更新…".to_string(),
        };
    }
    version
}

/// The arguments that let the updater bring a version of the kernel runtime.
pub fn apply_args(
    script: String,
    version: &str,
    dest: String,
    npm_cli: String,
    cache: String,
) -> (args: Vec<String>)
    ensures
        args.deep_view() == seq![
            script@,
            "apply"@,
            "--version"@,
            version@,
            "--dest"@,
            dest@,
            "--npm"@,
            npm_cli@,
            "--cache"@,
            cache@,
        ],
{
    vec![
        script,
        "apply".to_string(),
        "--version".to_string(),
        version.to_string(),
        "--dest".to_string(),
        dest,
        "--npm".to_string(),
        npm_cli,
        "--cache".to_string(),
        cache,
    ]
}

/// The error for an updater process that could not be started.
pub fn spawn_error(reason: &str) -> (error: String)
    ensures
        error@ == "无法启动更新器子进程："@ + reason@,
{
    let mut error = "无法启动更新器子进程：".to_string();
    error.append(reason);
    error
}

/// What the updater says while it applies an update.
pub enum ApplyEvent {
    Progress { phase: String, pct: u32, message: String },
    Error(String),
    Done(String),
}

/// The mathematical value of an [`ApplyEvent`].
pub enum ApplyEventView {
    Progress { phase: Seq<char>, pct: u32, message: Seq<char> },
    Error(Seq<char>),
    Done(Seq<char>),
}

impl DeepView for ApplyEvent {
    type V = ApplyEventView;

    open spec fn deep_view(&self) -> ApplyEventView {
        match *self {
            ApplyEvent::Progress { phase, pct, message } => ApplyEventView::Progress {
                phase: phase@,
                pct,
                message: message@,
            },
            ApplyEvent::Error(message) => ApplyEventView::Error(message@),
            ApplyEvent::Done(version) => ApplyEventView::Done(version@),
        }
    }
}

/// The number under `key`, or 0, without what does not fit in 32 bits.
pub open spec fn small_number(value: JsonView, key: Seq<char>) -> u32 {
    match number_member(value, key) {
        Some(n) => (n as int % 0x1_0000_0000) as u32,
        None => 0,
    }
}

/// What the updater says with a document.
pub open spec fn event_of(value: JsonView) -> Option<ApplyEventView> {
    let kind = text_member(value, "event"@);
    if kind == Some("progress"@) {
        Some(
            ApplyEventView::Progress {
                phase: text_or(text_member(value, "phase"@), ""@),
                pct: small_number(value, "pct"@),
                message: text_or(text_member(value, "message"@), ""@),
            },
        )
    } else if kind == Some("error"@) {
        Some(ApplyEventView::Error(text_or(text_member(value, "message"@), "更新失败"@)))
    } else if kind == Some("done"@) {
        Some(ApplyEventView::Done(text_or(text_member(value, "dshVersion"@), ""@)))
    } else {
        None
    }
}

/// What the updater says with a line of its output.
pub open spec fn event_on(line: Seq<char>) -> Option<ApplyEventView> {
    match json_parsed(trimmed(line)) {
        Some(value) => event_of(value),
        None => None,
    }
}

fn low_bits(n: u64) -> (low: u32)
    ensures
        low == (n as int % 0x1_0000_0000) as u32,
{
    (n % 0x1_0000_0000) as u32
}

/// What the updater says with a document.
pub fn apply_event(value: &Json) -> (event: Option<ApplyEvent>)
    ensures
        event.deep_view() == event_of(value@),
{
    proof {
        reveal_strlit("progress");
        reveal_strlit("error");
        reveal_strlit("done");
    }
    let kind = match str_field(value, "event") {
        Some(kind) => kind,
        None => {
            return None;
        },
    };
    if str_eq(kind.as_str(), "progress") {
        let pct: u32 = match value.get_number("pct") {
            Some(n) => low_bits(n),
            None => 0,
        };
        Some(
            ApplyEvent::Progress {
                phase: or_text(str_field(value, "phase"), ""),
                pct,
                message: or_text(str_field(value, "message"), ""),
            },
        )
    } else if str_eq(kind.as_str(), "error") {
        Some(ApplyEvent::Error(or_text(str_field(value, "message"), "更新失败")))
    } else if str_eq(kind.as_str(), "done") {
        Some(ApplyEvent::Done(or_text(str_field(value, "dshVersion"), "")))
    } else {
        None
    }
}

/// What the updater says with a line of its output. A line that is no document says nothing.
pub fn parse_apply_line(line: &str) -> (event: Option<ApplyEvent>)
    ensures
        event.deep_view() == event_on(line@),
{
    match parse_json(trim_str(line).as_str()) {
        Some(value) => apply_event(&value),
        None => None,
    }
}

/// What an update has come to so far.
pub struct ApplyRun {
    /// The last error that the updater reported.
    pub error: Option<String>,
    /// The last version that the updater reported to be in place.
    pub done: Option<String>,
}

/// The mathematical value of an [`ApplyRun`].
pub struct ApplyRunView {
    pub error: Option<Seq<char>>,
    pub done: Option<Seq<char>>,
}

impl View for ApplyRun {
    type V = ApplyRunView;

    open spec fn view(&self) -> ApplyRunView {
        ApplyRunView { error: self.error.deep_view(), done: self.done.deep_view() }
    }
}

/// The effect of what the updater says: progress is shown, the rest is kept for the end.
pub open spec fn event_taken(
    run: ApplyRunView,
    status: UpdateStatusView,
    event: ApplyEventView,
) -> (ApplyRunView, UpdateStatusView) {
    match event {
        ApplyEventView::Progress { phase, pct, message } => (
            run,
            UpdateStatusView {
                phase: UpdatePhaseView::Applying { phase, pct, message },
                ..status
            },
        ),
        ApplyEventView::Error(message) => (
            ApplyRunView { error: Some(message), ..run },
            status,
        ),
        ApplyEventView::Done(version) => (ApplyRunView { done: Some(version), ..run }, status),
    }
}

/// How an update ends. It is in place where the updater succeeded and reported no error; what it
/// reported tells the version, or the error.
pub open spec fn applied(
    run: ApplyRunView,
    success: bool,
    code: Option<i32>,
    version: Seq<char>,
    stderr_tail: Seq<char>,
) -> UpdatePhaseView {
    if success && run.error is None {
        UpdatePhaseView::PendingRestart { dsh_version: text_or(run.done, version) }
    } else {
        UpdatePhaseView::Failed { error: text_or(run.error, abnormal_exit_text(code, stderr_tail)) }
    }
}

/// The error for an updater that failed without a word.
pub open spec fn abnormal_exit_text(code: Option<i32>, stderr_tail: Seq<char>) -> Seq<char> {
    let tail = last_chars(stderr_tail, 400);
    let head = "更新器异常退出（code="@ + debug_code(code) + "）"@;
    if tail.len() == 0 {
        head
    } else {
        head + "："@ + tail
    }
}

fn abnormal_exit(code: Option<i32>, stderr_tail: &str) -> (error: String)
    ensures
        error@ == abnormal_exit_text(code, stderr_tail@),
{
    let tail = tail_of(stderr_tail, 400);
    let mut error = "更新器异常退出（code=".to_string();
    error.append(debug_code_of(code).as_str());
    error.append("）");
    if !tail.as_str().is_empty() {
        error.append("：");
        error.append(tail.as_str());
    }
    error
}

impl ApplyRun {
    /// An update that nothing has been heard of.
    pub fn new() -> (run: ApplyRun)
        ensures
            run@ == (ApplyRunView { error: None, done: None }),
    {
        ApplyRun { error: None, done: None }
    }

    /// Takes in what the updater says.
    pub fn take_event(&mut self, status: &mut UpdateStatus, event: ApplyEvent)
        ensures
            (final(self)@, final(status)@) == event_taken(
                old(self)@,
                old(status)@,
                event.deep_view(),
            ),
    {
        match event {
            ApplyEvent::Progress { phase, pct, message } => {
                status.phase = UpdatePhase::Applying { phase, pct, message };
            },
            ApplyEvent::Error(message) => {
                self.error = Some(message);
            },
            ApplyEvent::Done(version) => {
                self.done = Some(version);
            },
        }
    }

    /// Takes in a line of the updater's output.
    pub fn take_line(&mut self, status: &mut UpdateStatus, line: &str)
        ensures
            (final(self)@, final(status)@) == (match event_on(line@) {
                Some(event) => event_taken(old(self)@, old(status)@, event),
                None => (old(self)@, old(status)@),
            }),
    {
        if let Some(event) = parse_apply_line(line) {
            self.take_event(status, event);
        }
    }

    /// Takes in the end of the updater.
    pub fn finish(
        self,
        status: &mut UpdateStatus,
        success: bool,
        code: Option<i32>,
        version: &str,
        stderr_tail: &str,
    )
        ensures
            final(status)@ == (UpdateStatusView {
                phase: applied(self@, success, code, version@, stderr_tail@),
                ..old(status)@
            }),
    {
        match self.error {
            None => {
                if success {
                    status.phase =
                    UpdatePhase::PendingRestart { dsh_version: or_text(self.done, version) };
                } else {
                    set_failed(status, abnormal_exit(code, stderr_tail));
                }
            },
            Some(error) => {
                set_failed(status, error);
            },
        }
    }
}

/// The kept error output with one line more, before it is cut.
pub open spec fn tail_with(tail: Seq<char>, line: Seq<char>) -> Seq<char> {
    (tail + line).push('\n')
}

/// Where the kept error output is cut: in front of its last bytes.
pub open spec fn cut_at(text: Seq<char>) -> int {
    if encode_utf8(text).len() > STDERR_TAIL_BYTES {
        encode_utf8(text).len() - STDERR_TAIL_BYTES
    } else {
        0
    }
}

/// The kept error output after one line more: its last bytes.
pub open spec fn tail_after(tail: Seq<char>, line: Seq<char>) -> Seq<char> {
    let text = tail_with(tail, line);
    if encode_utf8(text).len() > STDERR_TAIL_BYTES {
        byte_slice(text, cut_at(text), encode_utf8(text).len() as int)
    } else {
        text
    }
}

fn joined_tail(tail: &str, line: &str) -> (text: String)
    ensures
        text@ == tail_with(tail@, line@),
{
    let mut text = tail.to_string();
    text.append(line);
    text.push('\n');
    text
}

/// Whether the kept error output can be cut after one line more: the cut splits no character.
pub fn can_push_tail(tail: &str, line: &str) -> (b: bool)
    ensures
        b == on_boundary(tail_with(tail@, line@), cut_at(tail_with(tail@, line@))),
{
    let text = joined_tail(tail, line);
    let len: usize = byte_len(text.as_str());
    let at: usize = if len > STDERR_TAIL_BYTES {
        len - STDERR_TAIL_BYTES
    } else {
        0
    };
    is_on_boundary(text.as_str(), at)
}

/// Adds a line to the kept error output.
pub fn push_tail(tail: &str, line: &str) -> (kept: String)
    requires
        on_boundary(tail_with(tail@, line@), cut_at(tail_with(tail@, line@))),
    ensures
        kept@ == tail_after(tail@, line@),
{
    let text = joined_tail(tail, line);
    let len: usize = byte_len(text.as_str());
    if len > STDERR_TAIL_BYTES {
        proof {
            vstd::utf8::encode_utf8_valid_utf8(text@);
            vstd::utf8::is_char_boundary_start_end_of_seq(encode_utf8(text@));
        }
        slice_bytes(text.as_str(), len - STDERR_TAIL_BYTES, len)
    } else {
        text
    }
}

// ---------------------------------------------------------------------------
// Skipping, downloading, summaries
// ---------------------------------------------------------------------------

/// Whether `channel` names the application's channel. Any other name means the kernel's.
pub open spec fn names_app(channel: Seq<char>) -> bool {
    channel == "app"@
}

/// The settings and the status after the latest version of a channel was skipped.
pub open spec fn skipped(
    settings: AppSettingsView,
    status: UpdateStatusView,
    channel: Seq<char>,
) -> (AppSettingsView, UpdateStatusView) {
    let version = if names_app(channel) {
        latest_of(status.app)
    } else {
        latest_of(status.kernel)
    };
    if version is None {
        (settings, status)
    } else {
        let changed = if names_app(channel) {
            AppSettingsView { skipped_app_version: version, ..settings }
        } else {
            AppSettingsView { skipped_kernel_version: version, ..settings }
        };
        (changed, with_prompts(status, changed))
    }
}

/// What follows from a request to skip a version.
#[derive(Clone, Copy, Debug, PartialEq, Eq)]
pub enum SkipOutcome {
    /// There is no version to skip.
    Nothing,
    /// The settings are to be saved.
    Save,
    /// The settings are to be saved, and the panel closes: there is nothing left to ask.
    SaveAndClose,
}

/// Skips the latest version of a channel.
pub fn update_skip(settings: &mut AppSettings, status: &mut UpdateStatus, channel: &str) -> (outcome:
    SkipOutcome)
    ensures
        (final(settings)@, final(status)@) == skipped(old(settings)@, old(status)@, channel@),
        outcome == (if (if names_app(channel@) {
            latest_of(old(status)@.app)
        } else {
            latest_of(old(status)@.kernel)
        }) is None {
            SkipOutcome::Nothing
        } else if prompts(final(status)@.kernel) || prompts(final(status)@.app) {
            SkipOutcome::Save
        } else {
            SkipOutcome::SaveAndClose
        }),
{
    let is_app = str_eq(channel, "app");
    let version = if is_app {
        latest(&status.app)
    } else {
        latest(&status.kernel)
    };
    if version.is_none() {
        return SkipOutcome::Nothing;
    }
    if is_app {
        settings.skipped_app_version = version;
    } else {
        settings.skipped_kernel_version = version;
    }
    compute_prompt(&mut status.kernel, borrowed(&settings.skipped_kernel_version));
    compute_prompt(&mut status.app, borrowed(&settings.skipped_app_version));
    if is_prompting(&status.kernel) || is_prompting(&status.app) {
        SkipOutcome::Save
    } else {
        SkipOutcome::SaveAndClose
    }
}

/// The page from which the application can be downloaded, where the updater named one.
pub fn update_open_download(status: &UpdateStatus) -> (url: Option<String>)
    ensures
        url.deep_view() == (match status@.app {
            Some(channel) => channel.url,
            None => None,
        }),
{
    match &status.app {
        Some(channel) => match &channel.url {
            Some(url) => Some(url.clone()),
            None => None,
        },
        None => None,
    }
}

/// The update overlay in one line, by its metadata.
pub open spec fn overlay_text(meta: Option<JsonView>) -> Seq<char> {
    match meta {
        Some(value) => "覆盖层 dsh "@ + text_or(text_member(value, "dshVersion"@), "?"@) + "（"@
            + text_or(text_member(value, "status"@), "?"@) + "）"@,
        None => "无覆盖层（使用内置运行时）"@,
    }
}

/// The update overlay in one line, by its metadata.
pub fn describe_overlay(meta: Option<&Json>) -> (text: String)
    ensures
        text@ == overlay_text(meta.deep_view()),
{
    match meta {
        Some(value) => {
            let mut text = "覆盖层 dsh ".to_string();
            text.append(or_text(str_field(value, "dshVersion"), "?").as_str());
            text.append("（");
            text.append(or_text(str_field(value, "status"), "?").as_str());
            text.append("）");
            text
        },
        None => "无覆盖层（使用内置运行时）".to_string(),
    }
}

/// The update overlay in one line, for the diagnostics. `raw` is the text of its metadata where
/// that could be read; it is an error where there is no place for an overlay at all.
pub fn overlay_summary(raw: Result<Option<&str>, ()>) -> (text: String)
    ensures
        text@ == (match raw {
            Ok(Some(meta)) => overlay_text(json_parsed(meta@)),
            Ok(None) => overlay_text(None),
            Err(_) => "覆盖层不可用"@,
        }),
{
    match raw {
        Ok(Some(meta)) => match parse_json(meta) {
            Some(value) => describe_overlay(Some(&value)),
            None => describe_overlay(None),
        },
        Ok(None) => describe_overlay(None),
        Err(_) => "覆盖层不可用".to_string(),
    }
}

/// The latest versions that a check found, in one line, for the diagnostics.
pub fn latest_summary(status: &UpdateStatus) -> (text: String)
    ensures
        text@ == "内核最新 "@ + text_or(latest_of(status@.kernel), "-"@) + " / 客户端最新 "@
            + text_or(latest_of(status@.app), "-"@),
{
    let mut text = "内核最新 ".to_string();
    text.append(or_text(latest(&status.kernel), "-").as_str());
    text.append(" / 客户端最新 ");
    text.append(or_text(latest(&status.app), "-").as_str());
    text
}

// ---------------------------------------------------------------------------
// Laws
// ---------------------------------------------------------------------------

/// The updater runs once at a time: after a check or an update was started, and until the updater
/// has ended, neither can be started.
pub proof fn updater_runs_alone(status: UpdateStatusView, manual: bool, again: bool)
    ensures
        check_begun(status, manual).1 == CheckStart::Run ==> ({
            let next = check_begun(status, manual).0;
            check_begun(next, again).1 != CheckStart::Run && apply_begun(next) == (
                next,
                None::<Seq<char>>,
            )
        }),
        apply_begun(status).1 is Some ==> ({
            let next = apply_begun(status).0;
            check_begun(next, again).1 != CheckStart::Run && apply_begun(next) == (
                next,
                None::<Seq<char>>,
            )
        }),
{
}

/// What the updater says while it applies an update leaves it at work.
pub proof fn events_keep_the_updater_at_work(
    run: ApplyRunView,
    status: UpdateStatusView,
    event: ApplyEventView,
)
    requires
        busy(status.phase),
    ensures
        busy(event_taken(run, status, event).1.phase),
{
}

/// A version that was skipped is not asked about again, as long as it is the latest; the other
/// channel's skipped version stays as it was.
pub proof fn skipping_silences_that_version(
    settings: AppSettingsView,
    status: UpdateStatusView,
    channel: Seq<char>,
)
    ensures
        ({
            let (changed, next) = skipped(settings, status, channel);
            if names_app(channel) {
                &&& latest_of(status.app) is Some ==> !prompts(next.app)
                &&& latest_of(status.app) is Some ==> !prompts(
                    prompted(status.app, changed.skipped_app_version),
                )
                &&& changed.skipped_kernel_version == settings.skipped_kernel_version
            } else {
                &&& latest_of(status.kernel) is Some ==> !prompts(next.kernel)
                &&& latest_of(status.kernel) is Some ==> !prompts(
                    prompted(status.kernel, changed.skipped_kernel_version),
                )
                &&& changed.skipped_app_version == settings.skipped_app_version
            }
        }),
        skipped(settings, status, channel).0.workspace_root == settings.workspace_root,
        skipped(settings, status, channel).0.auto_check == settings.auto_check,
{
}

/// A version other than the skipped one is asked about as soon as the updater reports it.
pub proof fn other_version_is_asked_about(info: ChannelInfoView, skipped_version: Seq<char>)
    requires
        info.update_available,
        info.latest != Some(skipped_version),
    ensures
        prompts(prompted(Some(info), Some(skipped_version))),
{
}

/// An update counts as in place only where the updater succeeded without an error report; an error
/// that it reported is what is shown, whatever its exit code.
pub proof fn reported_error_is_shown(
    error: Seq<char>,
    done: Option<Seq<char>>,
    success: bool,
    code: Option<i32>,
    version: Seq<char>,
    stderr_tail: Seq<char>,
)
    ensures
        applied(
            ApplyRunView { error: Some(error), done },
            success,
            code,
            version,
            stderr_tail,
        ) == (UpdatePhaseView::Failed { error }),
        !success ==> applied(
            ApplyRunView { error: None, done },
            success,
            code,
            version,
            stderr_tail,
        ) is Failed,
{
}

/// The kept error output never has more than its limit of bytes.
pub proof fn tail_is_bounded(tail: Seq<char>, line: Seq<char>)
    requires
        on_boundary(tail_with(tail, line), cut_at(tail_with(tail, line))),
    ensures
        encode_utf8(tail_after(tail, line)).len() <= STDERR_TAIL_BYTES,
{
    let text = tail_with(tail, line);
    let bytes = encode_utf8(text);
    vstd::utf8::encode_utf8_valid_utf8(text);
    if bytes.len() > STDERR_TAIL_BYTES {
        let cut = bytes.subrange(cut_at(text), bytes.len() as int);
        vstd::utf8::valid_utf8_split(bytes, cut_at(text));
        vstd::utf8::decode_utf8_encode_utf8(cut);
    }
}

/// An update of the kernel starts where the updater is not at work and the latest version is known,
/// also after a failure and after an update that waits for a restart: it goes for that version, and
/// only the phase changes. In all other cases nothing starts and nothing changes.
pub proof fn update_starts_where_it_can(status: UpdateStatusView)
    ensures
        !(status.phase is Checking) && !(status.phase is Applying) ==> (status.kernel matches Some(
            channel,
        ) ==> (channel.latest matches Some(version) ==> apply_begun(status) == (
            UpdateStatusView {
                phase: UpdatePhaseView::Applying {
                    phase: "prepare"@,
                    pct: 0,
                    message: "准备更新…"@,
                },
                ..status
            },
            Some(version),
        ))),
        status.phase is Checking || status.phase is Applying ==> apply_begun(status) == (
            status,
            None::<Seq<char>>,
        ),
        status.kernel is None ==> apply_begun(status) == (status, None::<Seq<char>>),
        status.kernel matches Some(channel) ==> (channel.latest is None ==> apply_begun(status) == (
            status,
            None::<Seq<char>>,
        )),
{
}

/// A check starts where the updater is not at work, also after a failure: only the phase and who
/// asked for it change. Where the updater is at work nothing changes, and only a check by hand shows
/// the panel.
pub proof fn check_starts_where_it_can(status: UpdateStatusView, manual: bool)
    ensures
        !(status.phase is Checking) && !(status.phase is Applying) ==> check_begun(status, manual)
            == (
            UpdateStatusView { phase: UpdatePhaseView::Checking, manual, ..status },
            CheckStart::Run,
        ),
        status.phase is Checking || status.phase is Applying ==> check_begun(status, true) == (
            status,
            CheckStart::ShowPanel,
        ) && check_begun(status, false) == (status, CheckStart::Nothing),
{
}

/// The user is asked about a channel exactly where it has an update and its latest version is not
/// the one that is skipped for that channel; nothing else of the status changes.
pub proof fn prompts_follow_the_settings(status: UpdateStatusView, settings: AppSettingsView)
    ensures
        ({
            let next = with_prompts(status, settings);
            &&& next.phase == status.phase
            &&& next.manual == status.manual
            &&& status.kernel is None ==> next.kernel is None && !prompts(next.kernel)
            &&& status.app is None ==> next.app is None && !prompts(next.app)
            &&& status.kernel matches Some(channel) ==> {
                &&& next.kernel == Some(
                    ChannelInfoView {
                        prompt: channel.update_available && channel.latest
                            != settings.skipped_kernel_version,
                        ..channel
                    },
                )
                &&& prompts(next.kernel) == (channel.update_available && channel.latest
                    != settings.skipped_kernel_version)
            }
            &&& status.app matches Some(channel) ==> {
                &&& next.app == Some(
                    ChannelInfoView {
                        prompt: channel.update_available && channel.latest
                            != settings.skipped_app_version,
                        ..channel
                    },
                )
                &&& prompts(next.app) == (channel.update_available && channel.latest
                    != settings.skipped_app_version)
            }
        }),
{
}

/// Whether a line of the updater's output holds an object that can be read.
pub open spec fn tells_object(line: Seq<char>) -> bool {
    trimmed(line).len() > 0 && trimmed(line)[0] == '{' && json_parsed(trimmed(line)) is Some
}

/// A line tells an object where it begins with a brace and can be read.
proof fn object_is_told(line: Seq<char>)
    ensures
        object_on(line) == (if tells_object(line) {
            json_parsed(trimmed(line))
        } else {
            None
        }),
{
    reveal_strlit("{");
    let text = trimmed(line);
    assert("{"@ == seq!['{']);
    if text.len() > 0 {
        assert(text.subrange(0, 1) == seq![text[0]]);
        if text.subrange(0, 1) == seq!['{'] {
            assert(text.subrange(0, 1)[0] == '{');
        }
    }
}

proof fn last_found_skips(found: Seq<Option<JsonView>>, n: int)
    requires
        0 < n <= found.len(),
        found[n - 1] is Some,
        forall|i: int| n <= i < found.len() ==> (#[trigger] found[i]) is None,
    ensures
        last_found(found) == found[n - 1],
    decreases found.len(),
{
    if n < found.len() {
        assert(found[found.len() - 1] is None);
        last_found_skips(found.drop_last(), n);
    }
}

proof fn nothing_is_found(found: Seq<Option<JsonView>>)
    requires
        forall|i: int| 0 <= i < found.len() ==> (#[trigger] found[i]) is None,
    ensures
        last_found(found) is None,
    decreases found.len(),
{
    if found.len() > 0 {
        assert(found[found.len() - 1] is None);
        nothing_is_found(found.drop_last());
    }
}

/// The updater's report is the last line that holds an object: whatever it printed before, and
/// whatever follows that holds none, a check comes to the two channels of that object.
pub proof fn last_report_counts(
    stdout: Seq<char>,
    stderr: Seq<char>,
    code: Option<i32>,
    kernel_current: Seq<char>,
    app_current: Seq<char>,
    channels: Result<(Option<ChannelInfo>, Option<ChannelInfo>), String>,
    at: int,
)
    requires
        is_check_outcome(stdout, stderr, code, kernel_current, app_current, channels),
        0 <= at < lines(stdout).len(),
        tells_object(lines(stdout)[at]),
        forall|i: int| at < i < lines(stdout).len() ==> !tells_object(#[trigger] lines(stdout)[i]),
    ensures
        ({
            let report = json_parsed(trimmed(lines(stdout)[at]))->0;
            &&& channels is Ok
            &&& member(report, "kernel"@) is None ==> channels->Ok_0.0 is None
            &&& member(report, "app"@) is None ==> channels->Ok_0.1 is None
            &&& member(report, "kernel"@) matches Some(value) ==> (
            channels->Ok_0.0.deep_view() matches Some(info) && tells_channel(
                value,
                kernel_current,
                info,
            ))
            &&& member(report, "app"@) matches Some(value) ==> (
            channels->Ok_0.1.deep_view() matches Some(info) && tells_channel(
                value,
                app_current,
                info,
            ))
        }),
{
    let list = lines(stdout);
    let found = objects_on(list);
    object_is_told(list[at]);
    assert forall|i: int| at + 1 <= i < found.len() implies (#[trigger] found[i]) is None by {
        object_is_told(list[i]);
    }
    last_found_skips(found, at + 1);
}

/// Whether a channel is told as the updater's document tells it: each field from the member of its
/// name, the current version from the application where the document has none.
pub open spec fn tells_channel(
    value: JsonView,
    fallback: Seq<char>,
    info: ChannelInfoView,
) -> bool {
    &&& match member(value, "current"@) {
        Some(JsonView::Str(text)) => info.current == text,
        _ => info.current == fallback,
    }
    &&& match member(value, "latest"@) {
        Some(JsonView::Str(text)) => info.latest == Some(text),
        _ => info.latest is None,
    }
    &&& match member(value, "updateAvailable"@) {
        Some(JsonView::Bool(flag)) => info.update_available == flag,
        _ => !info.update_available,
    }
    &&& match member(value, "url"@) {
        Some(JsonView::Str(text)) => info.url == Some(text),
        _ => info.url is None,
    }
    &&& match member(value, "enginesNode"@) {
        Some(JsonView::Str(text)) => info.engines_node == Some(text),
        _ => info.engines_node is None,
    }
    &&& match member(value, "nodeSufficient"@) {
        Some(JsonView::Bool(flag)) => info.node_sufficient == Some(flag),
        _ => info.node_sufficient is None,
    }
    &&& match member(value, "reason"@) {
        Some(JsonView::Str(text)) => info.reason == Some(text),
        _ => info.reason is None,
    }
    &&& !info.prompt
}

/// A check of whose output no line holds an object fails, with the exit code and the end of what the
/// updater complained of.
pub proof fn missing_report_is_told(
    stdout: Seq<char>,
    stderr: Seq<char>,
    code: Option<i32>,
    kernel_current: Seq<char>,
    app_current: Seq<char>,
    channels: Result<(Option<ChannelInfo>, Option<ChannelInfo>), String>,
)
    requires
        is_check_outcome(stdout, stderr, code, kernel_current, app_current, channels),
        forall|i: int| 0 <= i < lines(stdout).len() ==> !tells_object(#[trigger] lines(stdout)[i]),
    ensures
        channels matches Err(e) && e@ == "更新器未输出有效 JSON 结果"@ + "（exit="@ + (match code {
            Some(n) => "Some("@ + signed_decimal(n as int) + ")"@,
            None => "None"@,
        }) + "，stderr 尾部："@ + (if stderr.len() <= 300 {
            stderr
        } else {
            stderr.subrange(stderr.len() - 300, stderr.len() as int)
        }) + "）"@,
{
    let list = lines(stdout);
    let found = objects_on(list);
    assert forall|i: int| 0 <= i < found.len() implies (#[trigger] found[i]) is None by {
        object_is_told(list[i]);
    }
    nothing_is_found(found);
}

/// What the updater says with a line while it applies an update is told by the line's `event`: the
/// progress with its phase, share and message, an error with its message, the end with the version.
/// A line that is no document, or tells no such event, says nothing.
pub proof fn updater_lines_are_understood(line: Seq<char>)
    ensures
        json_parsed(trimmed(line)) is None ==> event_on(line) is None,
        json_parsed(trimmed(line)) matches Some(value) ==> {
            let said = |key: Seq<char>, otherwise: Seq<char>|
                match member(value, key) {
                    Some(JsonView::Str(text)) => text,
                    _ => otherwise,
                };
            let kind = member(value, "event"@);
            &&& kind == Some(JsonView::Str("error"@)) ==> event_on(line) == Some(
                ApplyEventView::Error(said("message"@, "更新失败"@)),
            )
            &&& kind == Some(JsonView::Str("done"@)) ==> event_on(line) == Some(
                ApplyEventView::Done(said("dshVersion"@, ""@)),
            )
            &&& kind == Some(JsonView::Str("progress"@)) ==> (event_on(line) matches Some(
                ApplyEventView::Progress { phase, pct, message },
            ) && phase == said("phase"@, ""@) && message == said("message"@, ""@) && match member(
                value,
                "pct"@,
            ) {
                Some(JsonView::Number(Some(n))) => pct == n as int % 0x1_0000_0000,
                _ => pct == 0,
            })
            &&& kind != Some(JsonView::Str("error"@)) && kind != Some(JsonView::Str("done"@))
                && kind != Some(JsonView::Str("progress"@)) ==> event_on(line) is None
        },
{
    reveal_strlit("progress");
    reveal_strlit("error");
    reveal_strlit("done");
    assert("error"@.len() != "done"@.len());
    assert("error"@.len() != "progress"@.len());
    assert("done"@.len() != "progress"@.len());
}

/// Progress is shown at once and leaves what was heard; an error or an end is kept for later, in the
/// place of an earlier one, and shows nothing yet.
pub proof fn events_are_taken_in(
    run: ApplyRunView,
    status: UpdateStatusView,
    phase: Seq<char>,
    pct: u32,
    text: Seq<char>,
)
    ensures
        event_taken(run, status, ApplyEventView::Progress { phase, pct, message: text }) == (
            run,
            UpdateStatusView {
                phase: UpdatePhaseView::Applying { phase, pct, message: text },
                ..status
            },
        ),
        event_taken(run, status, ApplyEventView::Error(text)) == (
            ApplyRunView { error: Some(text), done: run.done },
            status,
        ),
        event_taken(run, status, ApplyEventView::Done(text)) == (
            ApplyRunView { error: run.error, done: Some(text) },
            status,
        ),
{
}

/// How an update ends: an updater that succeeded without an error report leaves its version, or the
/// one that was asked for, to wait for a restart; one that failed without a word is shown with its
/// exit code and the last four hundred characters of its complaints, where there are any.
pub proof fn update_ends_as_reported(
    done: Option<Seq<char>>,
    code: Option<i32>,
    version: Seq<char>,
    stderr_tail: Seq<char>,
)
    ensures
        applied(ApplyRunView { error: None, done }, true, code, version, stderr_tail) == (
        UpdatePhaseView::PendingRestart {
            dsh_version: match done {
                Some(reported) => reported,
                None => version,
            },
        }),
        ({
            let shown = match code {
                Some(n) => "Some("@ + signed_decimal(n as int) + ")"@,
                None => "None"@,
            };
            let tail = if stderr_tail.len() <= 400 {
                stderr_tail
            } else {
                stderr_tail.subrange(stderr_tail.len() - 400, stderr_tail.len() as int)
            };
            applied(ApplyRunView { error: None, done }, false, code, version, stderr_tail) == (
            UpdatePhaseView::Failed {
                error: if stderr_tail.len() == 0 {
                    "更新器异常退出（code="@ + shown + "）"@
                } else {
                    "更新器异常退出（code="@ + shown + "）"@ + "："@ + tail
                },
            })
        }),
{
}

/// The kept error output is the end of what came in: all of it where it has no more than two thousand
/// bytes, else its last two thousand.
pub proof fn tail_is_the_end(tail: Seq<char>, line: Seq<char>)
    requires
        on_boundary((tail + line).push('\n'), if encode_utf8((tail + line).push('\n')).len() > 2000 {
            encode_utf8((tail + line).push('\n')).len() - 2000
        } else {
            0
        }),
    ensures
        ({
            let all = encode_utf8((tail + line).push('\n'));
            let kept = encode_utf8(tail_after(tail, line));
            &&& all.len() <= 2000 ==> tail_after(tail, line) == (tail + line).push('\n')
            &&& all.len() > 2000 ==> kept == all.subrange(all.len() - 2000, all.len() as int)
        }),
{
    let text = tail_with(tail, line);
    let bytes = encode_utf8(text);
    vstd::utf8::encode_utf8_valid_utf8(text);
    if bytes.len() > 2000 {
        let cut = bytes.subrange(cut_at(text), bytes.len() as int);
        vstd::utf8::valid_utf8_split(bytes, cut_at(text));
        vstd::utf8::decode_utf8_encode_utf8(cut);
    }
}

/// Skipping puts the channel's latest version down as skipped, in the place of an earlier one, and
/// asks anew about both channels. Every name but "app" means the kernel. Where the channel's latest
/// version is not known nothing changes.
pub proof fn skipping_notes_the_version(
    settings: AppSettingsView,
    status: UpdateStatusView,
    channel: Seq<char>,
)
    ensures
        ({
            let (changed, next) = skipped(settings, status, channel);
            let info = if channel == "app"@ {
                status.app
            } else {
                status.kernel
            };
            &&& info is None ==> changed == settings && next == status
            &&& info matches Some(known) ==> (known.latest is None ==> changed == settings && next
                == status)
            &&& info matches Some(known) ==> (known.latest is Some ==> {
                &&& next == with_prompts(status, changed)
                &&& channel == "app"@ ==> changed == (AppSettingsView {
                    skipped_app_version: known.latest,
                    ..settings
                })
                &&& channel != "app"@ ==> changed == (AppSettingsView {
                    skipped_kernel_version: known.latest,
                    ..settings
                })
            })
        }),
{
}

/// The line about the overlay names its version and its state, each as its metadata tells it or with
/// a question mark.
pub proof fn overlay_line_tells_the_overlay(meta: JsonView)
    ensures
        overlay_text(Some(meta)) == "覆盖层 dsh "@ + (match member(meta, "dshVersion"@) {
            Some(JsonView::Str(version)) => version,
            _ => "?"@,
        }) + "（"@ + (match member(meta, "status"@) {
            Some(JsonView::Str(state)) => state,
            _ => "?"@,
        }) + "）"@,
        overlay_text(None) == "无覆盖层（使用内置运行时）"@,
{
}

/// The automatic check waits for the kernel, looking twice a second, for two and a half minutes; it
/// then leaves off, and it goes on as soon as the kernel is ready.
pub proof fn automatic_check_waits_for_the_kernel(ready: bool, waited_nanos: u128, next: AutoCheck)
    requires
        call_ensures(auto_check_step, (ready, waited_nanos), next),
    ensures
        ready ==> next == AutoCheck::Check,
        !ready && waited_nanos < 150_000_000_000 ==> next == (AutoCheck::Wait { millis: 500 }),
        !ready && waited_nanos >= 150_000_000_000 ==> next == AutoCheck::Skip,
{
}

/// A check that succeeded shows the two channels that it found, in the place of earlier ones, and asks
/// about each; one that failed shows its error and keeps what was known. The panel is shown where the
/// check was asked for by hand, or where it leads to a question.
pub proof fn check_is_shown(
    status: &mut UpdateStatus,
    settings: &AppSettings,
    outcome: Result<(Option<ChannelInfo>, Option<ChannelInfo>), String>,
    show_panel: bool,
)
    requires
        call_ensures(finish_check, (status, settings, outcome), show_panel),
    ensures
        outcome matches Ok(channels) ==> {
            &&& final(status)@.phase == UpdatePhaseView::Idle
            &&& final(status)@.manual == old(status)@.manual
            &&& channels.0 is None ==> final(status)@.kernel is None
            &&& channels.1 is None ==> final(status)@.app is None
            &&& channels.0.deep_view() matches Some(channel) ==> final(status)@.kernel == Some(
                ChannelInfoView {
                    prompt: channel.update_available && channel.latest
                        != settings@.skipped_kernel_version,
                    ..channel
                },
            )
            &&& channels.1.deep_view() matches Some(channel) ==> final(status)@.app == Some(
                ChannelInfoView {
                    prompt: channel.update_available && channel.latest
                        != settings@.skipped_app_version,
                    ..channel
                },
            )
            &&& show_panel == (old(status)@.manual || (final(status)@.kernel matches Some(channel)
                && channel.prompt) || (final(status)@.app matches Some(channel) && channel.prompt))
        },
        outcome matches Err(error) ==> {
            &&& final(status)@ == (UpdateStatusView {
                phase: UpdatePhaseView::Failed { error: error@ },
                ..old(status)@
            })
            &&& show_panel == old(status)@.manual
        },
{
}

/// Skipping closes the panel where no question is left, and saves the settings wherever there was a
/// version to skip.
pub proof fn skipping_closes_the_panel(
    settings: &mut AppSettings,
    status: &mut UpdateStatus,
    channel: &str,
    outcome: SkipOutcome,
)
    requires
        call_ensures(update_skip, (settings, status, channel), outcome),
    ensures
        ({
            let info = if channel@ == "app"@ {
                old(status)@.app
            } else {
                old(status)@.kernel
            };
            let asks = (final(status)@.kernel matches Some(found) && found.prompt) || (
            final(status)@.app matches Some(found) && found.prompt);
            &&& info is None ==> outcome == SkipOutcome::Nothing
            &&& info matches Some(known) ==> (known.latest is None ==> outcome
                == SkipOutcome::Nothing)
            &&& info matches Some(known) ==> (known.latest is Some ==> outcome == (if asks {
                SkipOutcome::Save
            } else {
                SkipOutcome::SaveAndClose
            }))
        }),
{
}

/// The arguments of the updater carry what they are given, each behind its own name.
pub proof fn updater_is_told_what_to_do(
    script: String,
    kernel_current: &str,
    app_current: &str,
    check: Vec<String>,
    version: &str,
    dest: String,
    npm_cli: String,
    cache: String,
    apply: Vec<String>,
)
    requires
        call_ensures(check_args, (script, kernel_current, app_current), check),
        call_ensures(apply_args, (script, version, dest, npm_cli, cache), apply),
    ensures
        check.deep_view() == seq![
            script@,
            "check"@,
            "--kernel-current"@,
            kernel_current@,
            "--app-current"@,
            app_current@,
        ],
        apply.deep_view() == seq![
            script@,
            "apply"@,
            "--version"@,
            version@,
            "--dest"@,
            dest@,
            "--npm"@,
            npm_cli@,
            "--cache"@,
            cache@,
        ],
{
}

/// The page for downloads is the one that the updater named for the application.
pub proof fn download_page_is_the_application_s(status: &UpdateStatus, url: Option<String>)
    requires
        call_ensures(update_open_download, (status,), url),
    ensures
        status@.app is None ==> url is None,
        status@.app matches Some(channel) ==> url.deep_view() == channel.url,
{
}

/// The line about the latest versions tells the kernel's and then the application's, with a hyphen
/// for what is not known.
pub proof fn latest_versions_are_told(status: &UpdateStatus, text: String)
    requires
        call_ensures(latest_summary, (status,), text),
    ensures
        ({
            let known = |info: Option<ChannelInfoView>|
                match info {
                    Some(channel) => match channel.latest {
                        Some(version) => version,
                        None => "-"@,
                    },
                    None => "-"@,
                };
            text@ == "内核最新 "@ + known(status@.kernel) + " / 客户端最新 "@ + known(status@.app)
        }),
{
}

} // verus!
