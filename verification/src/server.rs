//! The kernel process: where its runtime lies, how it announces itself, and what the window may
//! show.
use crate::json::{member, parse_json, text_member, Json, JsonView};
use crate::number::{decimal, decimal_of, decimal_reads_back, digits_number, is_ascii_digit, is_digit, parse_digits};
use crate::outside::{duration_of_secs, json_parsed, text_from_utf8_lossy, utf8_lossy};
use crate::text::{after_prefix, chars_of, copy_range, has_prefix, second_word, second_word_is_the_second, second_word_of, starts_with, str_eq, string_of, strip_prefix, trim, trim_end, trim_end_behind, trim_start, trim_str, trimmed, white};
use crate::version::{compare_versions, versions_order};
use std::cmp::Ordering;
use std::time::Duration;
use vstd::prelude::*;

verus! {

/// How long the kernel may take until it is ready, in nanoseconds.
pub const BOOT_TIMEOUT_NANOS: u64 = 90_000_000_000;

/// How often the kernel is restarted by itself before the supervisor gives up.
pub const MAX_AUTO_RESTARTS: u32 = 3;

/// What the kernel prints in front of its port once it serves.
pub const URL_MARK: &'static str = "dsh web: http://127.0.0.1:";

// ---------------------------------------------------------------------------
// State
// ---------------------------------------------------------------------------

/// What the kernel is doing.
#[derive(Clone, Debug, PartialEq)]
pub enum KernelStatus {
    Starting { attempt: u32 },
    Restarting { attempt: u32 },
    Ready { url: String },
    Failed { error: String },
}

/// The mathematical value of a [`KernelStatus`].
pub enum KernelStatusView {
    Starting { attempt: u32 },
    Restarting { attempt: u32 },
    Ready { url: Seq<char> },
    Failed { error: Seq<char> },
}

impl View for KernelStatus {
    type V = KernelStatusView;

    open spec fn view(&self) -> KernelStatusView {
        match self {
            KernelStatus::Starting { attempt } => KernelStatusView::Starting { attempt: *attempt },
            KernelStatus::Restarting { attempt } => KernelStatusView::Restarting {
                attempt: *attempt,
            },
            KernelStatus::Ready { url } => KernelStatusView::Ready { url: url@ },
            KernelStatus::Failed { error } => KernelStatusView::Failed { error: error@ },
        }
    }
}

/// The facts that the supervisor and the windows share. Paths are carried, never looked into.
pub struct Shared<P> {
    pub status: KernelStatus,
    pub port: Option<u16>,
    pub workspace: P,
    pub program: P,
    pub bundle: P,
    /// Where the runtime comes from: "dev", "bundled" or "overlay".
    pub source: String,
    pub node_version: Option<String>,
}

impl<P> Shared<P> {
    /// The facts before the kernel has been started.
    pub fn new(program: P, bundle: P, workspace: P) -> (shared: Shared<P>)
        ensures
            shared.status@ == (KernelStatusView::Starting { attempt: 0 }),
            shared.port is None,
            shared.workspace == workspace,
            shared.program == program,
            shared.bundle == bundle,
            shared.source@ == "unknown"@,
            shared.node_version is None,
    {
        Shared {
            status: KernelStatus::Starting { attempt: 0 },
            port: None,
            workspace,
            program,
            bundle,
            source: "unknown".to_string(),
            node_version: None,
        }
    }
}

/// A located kernel runtime.
pub struct KernelRuntime<P> {
    pub program: P,
    pub bin_js: P,
    pub bundle: P,
    pub source: &'static str,
}

/// What is done with an update overlay.
pub enum OverlayPick<P> {
    /// The overlay's runtime is used.
    Use { program: P, bin_js: P, bundle: P },
    /// The overlay is not worth using and should be removed.
    IgnoreAndClean,
    /// There is no valid overlay; what there is stays.
    Ignore,
}

/// The command line that starts the kernel.
pub struct KernelRun<P> {
    pub program: P,
    pub args: Vec<String>,
}

/// The arguments that start the kernel whose entry script is `bin_js`.
pub fn kernel_args(bin_js: String) -> (args: Vec<String>)
    ensures
        args.deep_view() == seq![
            bin_js@,
            "--profile"@,
            "web"@,
            "--port"@,
            "0"@,
            "--no-open"@,
        ],
{
    vec![
        bin_js,
        "--profile".to_string(),
        "web".to_string(),
        "--port".to_string(),
        "0".to_string(),
        "--no-open".to_string(),
    ]
}

// ---------------------------------------------------------------------------
// Locating the runtime
// ---------------------------------------------------------------------------

/// The file name of the Node executable that ships with the application.
pub fn sidecar_name(is_windows: bool) -> (name: &'static str)
    ensures
        name@ == (if is_windows {
            "dsh-node.exe"@
        } else {
            "dsh-node"@
        }),
{
    if is_windows {
        "dsh-node.exe"
    } else {
        "dsh-node"
    }
}

/// The directories from a runtime bundle down to the kernel package.
pub fn package_segments() -> (segments: Vec<String>)
    ensures
        segments.deep_view() == seq!["node_modules"@, "@deepseek-ai"@, "dsh"@],
{
    vec!["node_modules".to_string(), "@deepseek-ai".to_string(), "dsh".to_string()]
}

/// The way from the kernel package to its entry script.
pub fn entry_segments() -> (segments: Vec<String>)
    ensures
        segments.deep_view() == seq!["lib"@, "bin.js"@],
{
    vec!["lib".to_string(), "bin.js".to_string()]
}

/// The `version` of a package manifest.
pub fn manifest_version(manifest: &Json) -> (version: Option<String>)
    ensures
        version.deep_view() == text_member(manifest@, "version"@),
{
    manifest.get_text("version")
}

/// The version that the text of a package manifest names, where it could be read.
pub open spec fn pkg_version(raw: Option<Seq<char>>) -> Option<Seq<char>> {
    match raw {
        Some(text) => match json_parsed(text) {
            Some(manifest) => text_member(manifest, "version"@),
            None => None,
        },
        None => None,
    }
}

/// The version that the text of a package manifest names, where it could be read.
pub fn read_pkg_version(raw: Option<&str>) -> (version: Option<String>)
    ensures
        version.deep_view() == pkg_version(raw.deep_view()),
{
    match raw {
        Some(text) => match parse_json(text) {
            Some(manifest) => manifest_version(&manifest),
            None => None,
        },
        None => None,
    }
}

/// The kernel's version for the diagnostics: that of the package manifest, else that of the
/// bundle's own manifest, else "未知".
pub fn dsh_version(package: Option<&str>, bundle: Option<&str>) -> (version: String)
    ensures
        version@ == (match (pkg_version(package.deep_view()), pkg_version(bundle.deep_view())) {
            (Some(v), _) => v,
            (None, Some(v)) => v,
            (None, None) => "未知"@,
        }),
{
    match read_pkg_version(package) {
        Some(version) => version,
        None => match read_pkg_version(bundle) {
            Some(version) => version,
            None => "未知".to_string(),
        },
    }
}

/// What `node --version` printed, trimmed; `stdout` is there where the command succeeded.
pub open spec fn printed_version(stdout: Option<Seq<u8>>) -> Seq<char> {
    match stdout {
        Some(bytes) => trimmed(utf8_lossy(bytes)),
        None => "未知"@,
    }
}

/// The version of the Node runtime for the diagnostics: the one that was found before, else the
/// one that `node --version` printed, which is kept.
pub fn node_version<P>(shared: &mut Shared<P>, stdout: Option<Vec<u8>>) -> (version: String)
    ensures
        version@ == (match old(shared).node_version {
            Some(known) => known@,
            None => printed_version(stdout.deep_view()),
        }),
        final(shared).node_version.deep_view() == Some(version@),
        final(shared).status == old(shared).status,
        final(shared).port == old(shared).port,
        final(shared).workspace == old(shared).workspace,
        final(shared).program == old(shared).program,
        final(shared).bundle == old(shared).bundle,
        final(shared).source == old(shared).source,
{
    if let Some(known) = &shared.node_version {
        return known.clone();
    }
    let version = match stdout {
        Some(bytes) => {
            assert(bytes.deep_view() == bytes@);
            trim_str(text_from_utf8_lossy(bytes.as_slice()).as_str())
        },
        None => "未知".to_string(),
    };
    shared.node_version = Some(version.clone());
    version
}

/// What is done with an overlay, by its metadata.
pub enum OverlayVerdict {
    Use,
    IgnoreAndClean,
    Ignore,
}

/// An overlay is used where it is marked ready, names its version, and that version is newer than
/// the bundled one; one that is ready but not newer is removed.
pub open spec fn overlay_verdict(meta: JsonView, bundled: Option<Seq<char>>) -> OverlayVerdict {
    if text_member(meta, "status"@) != Some("ready"@) {
        OverlayVerdict::Ignore
    } else {
        match (text_member(meta, "dshVersion"@), bundled) {
            (None, _) => OverlayVerdict::Ignore,
            (Some(_), None) => OverlayVerdict::Use,
            (Some(version), Some(bundled)) => if versions_order(version, bundled)
                == Ordering::Greater {
                OverlayVerdict::Use
            } else {
                OverlayVerdict::IgnoreAndClean
            },
        }
    }
}

/// What is done with an overlay that has this metadata.
pub fn judge_overlay(meta: &Json, bundled_version: Option<&str>) -> (verdict: OverlayVerdict)
    ensures
        verdict == overlay_verdict(meta@, bundled_version.deep_view()),
{
    match meta.get_text("status") {
        Some(status) => if !str_eq(status.as_str(), "ready") {
            return OverlayVerdict::Ignore;
        },
        None => {
            return OverlayVerdict::Ignore;
        },
    }
    match meta.get_text("dshVersion") {
        Some(version) => match bundled_version {
            Some(bundled) => match compare_versions(version.as_str(), bundled) {
                Ordering::Greater => OverlayVerdict::Use,
                _ => OverlayVerdict::IgnoreAndClean,
            },
            None => OverlayVerdict::Use,
        },
        None => OverlayVerdict::Ignore,
    }
}

/// An overlay replaces a bundled runtime only with a newer version.
pub proof fn overlay_is_never_a_regression(meta: JsonView, bundled: Seq<char>)
    requires
        overlay_verdict(meta, Some(bundled)) is Use,
    ensures
        text_member(meta, "status"@) == Some("ready"@),
        text_member(meta, "dshVersion"@) matches Some(version) && versions_order(version, bundled)
            == Ordering::Greater,
{
}

/// What is found on disk of an update overlay.
pub struct OverlayProbe {
    /// Whether its entry script is there.
    pub bin_js_exists: bool,
    /// The text of its `meta.json`, where it could be read.
    pub meta: Option<String>,
    /// Whether it brings its own Node executable.
    pub node_exists: bool,
}

/// Where an update overlay keeps its parts.
pub struct OverlayPaths<P> {
    pub node: P,
    pub bin_js: P,
    pub bundle: P,
}

/// What is done with an overlay of which this was found.
pub open spec fn probe_verdict(
    probe: OverlayProbe,
    bundled: Option<Seq<char>>,
) -> OverlayVerdict {
    if !probe.bin_js_exists {
        OverlayVerdict::Ignore
    } else {
        match probe.meta {
            Some(raw) => match json_parsed(raw@) {
                Some(meta) => overlay_verdict(meta, bundled),
                None => OverlayVerdict::Ignore,
            },
            None => OverlayVerdict::Ignore,
        }
    }
}

/// What is done with an overlay of which this was found.
pub fn judge_probe(probe: &OverlayProbe, bundled_version: Option<&str>) -> (verdict:
    OverlayVerdict)
    ensures
        verdict == probe_verdict(*probe, bundled_version.deep_view()),
{
    if !probe.bin_js_exists {
        return OverlayVerdict::Ignore;
    }
    match &probe.meta {
        Some(raw) => match parse_json(raw.as_str()) {
            Some(meta) => judge_overlay(&meta, bundled_version),
            None => OverlayVerdict::Ignore,
        },
        None => OverlayVerdict::Ignore,
    }
}

/// Decides on an update overlay. A usable one runs on its own Node where it brings one, else on
/// the bundled one.
pub fn pick_overlay<P>(
    probe: &OverlayProbe,
    paths: OverlayPaths<P>,
    bundled_version: Option<&str>,
    bundled_program: P,
) -> (pick: OverlayPick<P>)
    ensures
        pick == (match probe_verdict(*probe, bundled_version.deep_view()) {
            OverlayVerdict::Use => OverlayPick::Use {
                program: if probe.node_exists {
                    paths.node
                } else {
                    bundled_program
                },
                bin_js: paths.bin_js,
                bundle: paths.bundle,
            },
            OverlayVerdict::IgnoreAndClean => OverlayPick::IgnoreAndClean,
            OverlayVerdict::Ignore => OverlayPick::Ignore,
        }),
{
    match judge_probe(probe, bundled_version) {
        OverlayVerdict::Use => OverlayPick::Use {
            program: if probe.node_exists {
                paths.node
            } else {
                bundled_program
            },
            bin_js: paths.bin_js,
            bundle: paths.bundle,
        },
        OverlayVerdict::IgnoreAndClean => OverlayPick::IgnoreAndClean,
        OverlayVerdict::Ignore => OverlayPick::Ignore,
    }
}

/// The name of the program that runs the kernel under a development override: the one that it
/// names, else "node".
pub open spec fn dev_name(node: Option<Seq<char>>) -> Seq<char> {
    match node {
        Some(name) => name,
        None => "node"@,
    }
}

/// The program that runs the kernel under a development override: the one that the override names,
/// else "node".
pub fn dev_program(node: Option<String>) -> (program: String)
    ensures
        program@ == dev_name(node.deep_view()),
{
    match node {
        Some(name) => name,
        None => "node".to_string(),
    }
}

/// What is found of the runtime inside the application's resources.
pub struct ResourceProbe<P> {
    pub bin_js: P,
    /// The entry script's path as it is shown.
    pub bin_js_shown: String,
    pub bin_js_exists: bool,
    pub bundle: P,
    /// The text of the bundled kernel's package manifest, where it could be read.
    pub manifest: Option<String>,
    /// The update overlay, where the application has a data directory.
    pub overlay: Option<(OverlayProbe, OverlayPaths<P>)>,
}

/// What is found of the kernel runtime on this machine.
pub enum RuntimeProbe<P> {
    /// A development override names the kernel package; see [`dev_probe`].
    Dev { program: P, bin_js: P, bundle: P },
    /// The path of the running executable could not be had, for this reason.
    NoExecutable { error: String },
    /// The running executable lies in no directory.
    NoDirectory,
    /// The executable's directory was found; the resources may be missing for a reason.
    Installed {
        program: P,
        /// The sidecar's path as it is shown.
        program_shown: String,
        program_exists: bool,
        resources: Result<ResourceProbe<P>, String>,
    },
}

/// What a development override comes to, where `app_dir` is the kernel package that it names and
/// `node` the program, if any. A path is told by its segments, one below the other.
pub fn dev_probe(app_dir: &str, node: Option<String>) -> (probe: RuntimeProbe<Vec<String>>)
    ensures
        probe matches RuntimeProbe::Dev { program, bin_js, bundle } && program.deep_view() == seq![
            dev_name(node.deep_view()),
        ] && bin_js.deep_view() == seq![app_dir@, "lib"@, "bin.js"@] && bundle.deep_view() == seq![
            app_dir@,
        ],
{
    let program = vec![dev_program(node)];
    let mut bin_js = vec![app_dir.to_string()];
    let mut entry = entry_segments();
    let ghost below = entry.deep_view();
    bin_js.append(&mut entry);
    let bundle = vec![app_dir.to_string()];
    assert(bin_js.deep_view() == seq![app_dir@] + below);
    RuntimeProbe::Dev { program, bin_js, bundle }
}

/// A located runtime, and whether the overlay is to be removed.
pub struct RuntimeChoice<P> {
    pub runtime: KernelRuntime<P>,
    pub clean_overlay: bool,
}

/// What is done with the overlay of which `resources` tells.
pub open spec fn resources_verdict<P>(resources: ResourceProbe<P>) -> OverlayVerdict {
    match resources.overlay {
        Some(overlay) => probe_verdict(overlay.0, pkg_version(resources.manifest.deep_view())),
        None => OverlayVerdict::Ignore,
    }
}

/// Whether `runtime` has these parts and comes from `source`.
pub open spec fn runtime_is<P>(
    runtime: KernelRuntime<P>,
    program: P,
    bin_js: P,
    bundle: P,
    source: Seq<char>,
) -> bool {
    &&& runtime.program == program
    &&& runtime.bin_js == bin_js
    &&& runtime.bundle == bundle
    &&& runtime.source@ == source
}

/// Whether `choice` is the runtime that the probe calls for.
pub open spec fn is_resolved<P>(probe: RuntimeProbe<P>, choice: Result<RuntimeChoice<P>, String>)
    -> bool {
    match probe {
        RuntimeProbe::Dev { program, bin_js, bundle } => choice matches Ok(found)
            && !found.clean_overlay && runtime_is(found.runtime, program, bin_js, bundle, "dev"@),
        RuntimeProbe::NoExecutable { error } => choice matches Err(e) && e@ == error@,
        RuntimeProbe::NoDirectory => choice matches Err(e) && e@ == "无法定位可执行文件目录"@,
        RuntimeProbe::Installed { program, program_shown, program_exists, resources } => {
            if !program_exists {
                choice matches Err(e) && e@ == "未找到内核运行时（"@ + program_shown@
                    + "）。请先运行打包脚本 stage-runtime.mjs。"@
            } else {
                match resources {
                    Err(error) => choice matches Err(e) && e@ == error@,
                    Ok(found) => if !found.bin_js_exists {
                        choice matches Err(e) && e@ == "未找到内核入口（"@ + found.bin_js_shown@
                            + "）。"@
                    } else {
                        is_installed_choice(program, found, choice)
                    },
                }
            }
        },
    }
}

/// Whether `choice` is the runtime of a complete installation: the overlay where it is used, else
/// the bundled one.
pub open spec fn is_installed_choice<P>(
    program: P,
    resources: ResourceProbe<P>,
    choice: Result<RuntimeChoice<P>, String>,
) -> bool {
    let verdict = resources_verdict(resources);
    choice matches Ok(found) && found.clean_overlay == (verdict is IgnoreAndClean) && (
    match resources.overlay {
        Some(overlay) if verdict is Use => runtime_is(
            found.runtime,
            if overlay.0.node_exists {
                overlay.1.node
            } else {
                program
            },
            overlay.1.bin_js,
            overlay.1.bundle,
            "overlay"@,
        ),
        _ => runtime_is(
            found.runtime,
            program,
            resources.bin_js,
            resources.bundle,
            "bundled"@,
        ),
    })
}

/// Stands for a path while the overlay is decided on.
enum Part {
    BundledNode,
    OverlayNode,
    OverlayEntry,
    OverlayBundle,
}

fn bundled_choice<P>(program: P, bin_js: P, bundle: P, clean_overlay: bool) -> (choice:
    RuntimeChoice<P>)
    ensures
        runtime_is(choice.runtime, program, bin_js, bundle, "bundled"@),
        choice.clean_overlay == clean_overlay,
{
    RuntimeChoice {
        runtime: KernelRuntime { program, bin_js, bundle, source: "bundled" },
        clean_overlay,
    }
}

/// Locates the kernel runtime: a development override first; else the sidecar and the bundle
/// inside the resources, or a newer update overlay in their place.
pub fn resolve_runtime<P>(probe: RuntimeProbe<P>) -> (choice: Result<RuntimeChoice<P>, String>)
    ensures
        is_resolved(probe, choice),
{
    match probe {
        RuntimeProbe::Dev { program, bin_js, bundle } => Ok(
            RuntimeChoice {
                runtime: KernelRuntime { program, bin_js, bundle, source: "dev" },
                clean_overlay: false,
            },
        ),
        RuntimeProbe::NoExecutable { error } => Err(error),
        RuntimeProbe::NoDirectory => Err("无法定位可执行文件目录".to_string()),
        RuntimeProbe::Installed { program, program_shown, program_exists, resources } => {
            if !program_exists {
                let mut error = "未找到内核运行时（".to_string();
                error.append(program_shown.as_str());
                error.append("）。请先运行打包脚本 stage-runtime.mjs。");
                return Err(error);
            }
            let resources = match resources {
                Ok(resources) => resources,
                Err(error) => {
                    return Err(error);
                },
            };
            if !resources.bin_js_exists {
                let mut error = "未找到内核入口（".to_string();
                error.append(resources.bin_js_shown.as_str());
                error.append("）。");
                return Err(error);
            }
            let version = match &resources.manifest {
                Some(text) => read_pkg_version(Some(text.as_str())),
                None => read_pkg_version(None),
            };
            let bundled: Option<&str> = match &version {
                Some(text) => Some(text.as_str()),
                None => None,
            };
            match resources.overlay {
                None => Ok(
                    bundled_choice(program, resources.bin_js, resources.bundle, false),
                ),
                Some((overlay, paths)) => {
                    let handles = OverlayPaths {
                        node: Part::OverlayNode,
                        bin_js: Part::OverlayEntry,
                        bundle: Part::OverlayBundle,
                    };
                    match pick_overlay(&overlay, handles, bundled, Part::BundledNode) {
                        OverlayPick::Use { program: node, .. } => {
                            let program = match node {
                                Part::OverlayNode => paths.node,
                                _ => program,
                            };
                            Ok(
                                RuntimeChoice {
                                    runtime: KernelRuntime {
                                        program,
                                        bin_js: paths.bin_js,
                                        bundle: paths.bundle,
                                        source: "overlay",
                                    },
                                    clean_overlay: false,
                                },
                            )
                        },
                        OverlayPick::IgnoreAndClean => Ok(
                            bundled_choice(program, resources.bin_js, resources.bundle, true),
                        ),
                        OverlayPick::Ignore => Ok(
                            bundled_choice(program, resources.bin_js, resources.bundle, false),
                        ),
                    }
                },
            }
        },
    }
}

// ---------------------------------------------------------------------------
// Readiness
// ---------------------------------------------------------------------------

/// The digits that `s` begins with.
pub open spec fn leading_digits(s: Seq<char>) -> Seq<char>
    decreases s.len(),
{
    if s.len() > 0 && is_digit(s[0]) {
        seq![s[0]] + leading_digits(s.subrange(1, s.len() as int))
    } else {
        seq![]
    }
}

/// The port that an output line of the kernel announces.
pub open spec fn ready_port(line: Seq<char>) -> Option<nat> {
    match after_prefix(trimmed(line), URL_MARK@) {
        Some(rest) => digits_number(leading_digits(rest), u16::MAX as nat),
        None => None,
    }
}

fn take_digits(s: &Vec<char>) -> (digits: Vec<char>)
    ensures
        digits@ == leading_digits(s@),
{
    let mut i: usize = 0;
    assert(s@.subrange(0, s@.len() as int) == s@);
    assert(s@.subrange(0, 0) + leading_digits(s@) == leading_digits(s@));
    while i < s.len() && is_ascii_digit(s[i])
        invariant
            i <= s@.len(),
            leading_digits(s@) == s@.subrange(0, i as int) + leading_digits(
                s@.subrange(i as int, s@.len() as int),
            ),
        decreases s@.len() - i,
    {
        let ghost rest = s@.subrange(i as int, s@.len() as int);
        assert(rest.subrange(1, rest.len() as int) == s@.subrange(i + 1, s@.len() as int));
        assert(s@.subrange(0, i + 1) == s@.subrange(0, i as int) + seq![rest[0]]);
        i = i + 1;
    }
    assert(leading_digits(s@.subrange(i as int, s@.len() as int)) == Seq::<char>::empty());
    copy_range(s, 0, i)
}

/// The port that an output line of the kernel announces:
/// "dsh web: http://127.0.0.1:33456 (LAN: ...)" announces 33456.
pub fn parse_ready_line(line: &str) -> (port: Option<u16>)
    ensures
        ready_port(line@) == (match port {
            Some(p) => Some(p as nat),
            None => None,
        }),
{
    match strip_prefix(&trim(&chars_of(line)), URL_MARK) {
        Some(rest) => match parse_digits(&take_digits(&rest), u16::MAX as u64) {
            Some(port) => Some(port as u16),
            None => None,
        },
        None => None,
    }
}

proof fn leading_digits_of(digits: Seq<char>, rest: Seq<char>)
    requires
        forall|i: int| 0 <= i < digits.len() ==> is_digit(#[trigger] digits[i]),
        rest.len() == 0 || !is_digit(rest[0]),
    ensures
        leading_digits(digits + rest) == digits,
    decreases digits.len(),
{
    let all = digits + rest;
    if digits.len() == 0 {
        assert(all == rest);
    } else {
        let tail = digits.subrange(1, digits.len() as int);
        assert(all.subrange(1, all.len() as int) == tail + rest);
        leading_digits_of(tail, rest);
        assert(all[0] == digits[0]);
        assert(seq![digits[0]] + tail == digits);
    }
}

/// The kernel's announcement is understood: the mark, a port, and whatever follows that is no
/// digit, announce exactly that port, also where white space stands in front.
#[verifier::rlimit(40)]
pub proof fn ready_line_announces_its_port(lead: Seq<char>, port: u16, rest: Seq<char>)
    requires
        forall|i: int| 0 <= i < lead.len() ==> white(#[trigger] lead[i]),
        rest.len() == 0 || !is_digit(rest[0]),
    ensures
        ready_port(lead + (URL_MARK@ + decimal(port as nat) + rest)) == Some(port as nat),
{
    reveal_strlit("dsh web: http://127.0.0.1:");
    let mark = URL_MARK@;
    let digits = decimal(port as nat);
    let line = mark + digits + rest;
    decimal_reads_back(port as nat, u16::MAX as nat);
    let said = mark + digits;
    assert(is_digit(digits[digits.len() - 1]));
    assert(said[said.len() - 1] == digits[digits.len() - 1]);
    trim_end_behind(said, rest);
    assert(line[0] == 'd');
    trim_start_of_white(lead, line);
    let kept = trim_end(rest);
    assert(trimmed(lead + line) == said + kept);
    assert((said + kept).subrange(0, mark.len() as int) == mark);
    assert((said + kept).subrange(mark.len() as int, (said + kept).len() as int) == digits + kept);
    trim_end_head(rest);
    leading_digits_of(digits, kept);
}

/// White space in front of a text is trimmed.
proof fn trim_start_of_white(lead: Seq<char>, s: Seq<char>)
    requires
        forall|i: int| 0 <= i < lead.len() ==> white(#[trigger] lead[i]),
    ensures
        trim_start(lead + s) == trim_start(s),
    decreases lead.len(),
{
    if lead.len() == 0 {
        assert(lead + s == s);
    } else {
        let rest = lead.subrange(1, lead.len() as int);
        let all = lead + s;
        assert(all[0] == lead[0]);
        assert(all.subrange(1, all.len() as int) == rest + s);
        trim_start_of_white(rest, s);
    }
}

/// Trimming the end of a text keeps its head, or leaves nothing.
proof fn trim_end_head(s: Seq<char>)
    ensures
        trim_end(s).len() == 0 || (s.len() > 0 && trim_end(s)[0] == s[0]),
    decreases s.len(),
{
    if s.len() > 0 && white(s[s.len() - 1]) {
        trim_end_head(s.subrange(0, s.len() - 1));
    }
}

/// The seconds between the end of the kernel and its restart number `attempt`: 1, 2, 4, and no
/// more than that.
pub open spec fn backoff(attempt: u32) -> u64 {
    if attempt <= 1 {
        1
    } else if attempt == 2 {
        2
    } else {
        4
    }
}

/// The seconds to wait before restart number `attempt`.
pub fn backoff_secs(attempt: u32) -> (secs: u64)
    ensures
        secs == backoff(attempt),
{
    if attempt <= 1 {
        1
    } else if attempt == 2 {
        2
    } else {
        4
    }
}

/// The time to wait before restart number `attempt`: 1s, 2s, 4s, and no more than that.
pub fn backoff_delay(attempt: u32) -> (delay: Duration)
    ensures
        delay == duration_of_secs(backoff(attempt)),
{
    Duration::from_secs(backoff_secs(attempt))
}

/// The wait before a restart is one second at least and four at most, and never gets shorter from
/// one restart to the next.
pub proof fn backoff_grows(a: u32, b: u32)
    requires
        a <= b,
    ensures
        1 <= backoff(a) <= backoff(b) <= 4,
{
}

/// The request that asks the kernel whether it serves.
pub fn http_probe_request() -> (request: String)
    ensures
        request@ == "GET / HTTP/1.0\r\nHost: 127.0.0.1\r\nConnection: close\r\n\r\n"@,
{
    "GET / HTTP/1.0\r\nHost: 127.0.0.1\r\nConnection: close\r\n\r\n".to_string()
}

/// Whether a response is one of HTTP/1 with status 200: the status is the second word of it.
pub open spec fn response_is_ok(text: Seq<char>) -> bool {
    has_prefix(text, "HTTP/1."@) && second_word(text) == "200"@
}

/// Whether a response is one of HTTP/1 with status 200.
pub fn response_ok(text: &str) -> (ok: bool)
    ensures
        ok == response_is_ok(text@),
{
    let chars = chars_of(text);
    starts_with(&chars, "HTTP/1.") && str_eq(string_of(&second_word_of(&chars)).as_str(), "200")
}

/// Whether what the kernel answered with says that it serves; there is no answer where it could not
/// be reached.
pub fn http_is_ok(answer: Option<&[u8]>) -> (ok: bool)
    ensures
        ok == (match answer {
            Some(bytes) => response_is_ok(utf8_lossy(bytes@)),
            None => false,
        }),
{
    match answer {
        Some(bytes) => response_ok(text_from_utf8_lossy(bytes).as_str()),
        None => false,
    }
}

// ---------------------------------------------------------------------------
// The main window
// ---------------------------------------------------------------------------

/// The address under which the kernel serves.
pub open spec fn kernel_url(port: u16) -> Seq<char> {
    "http://127.0.0.1:"@ + decimal(port as nat) + "/"@
}

/// The address under which the kernel serves.
pub fn kernel_url_of(port: u16) -> (url: String)
    ensures
        url@ == kernel_url(port),
{
    let mut url = "http://127.0.0.1:".to_string();
    url.append(decimal_of(port as u64).as_str());
    url.append("/");
    url
}

/// The port that the main window is bound to, from the port of the parsed kernel address.
pub fn window_port(port: Option<u16>) -> (bound: Result<u16, String>)
    ensures
        match port {
            Some(p) => bound == Ok::<u16, String>(p),
            None => bound matches Err(e) && e@ == "内核 URL 缺少端口"@,
        },
{
    match port {
        Some(p) => Ok(p),
        None => Err("内核 URL 缺少端口".to_string()),
    }
}

/// Whether the main window may go to an address with these parts: the kernel's own origin, and
/// nothing else.
pub fn navigation_allowed(
    scheme: &str,
    host: Option<&str>,
    nav_port: Option<u16>,
    port: u16,
) -> (allowed: bool)
    ensures
        allowed == (scheme@ == "http"@ && host.deep_view() == Some("127.0.0.1"@) && nav_port == Some(
            port,
        )),
{
    let host_ok = match host {
        Some(name) => str_eq(name, "127.0.0.1"),
        None => false,
    };
    let port_ok = match nav_port {
        Some(p) => p == port,
        None => false,
    };
    str_eq(scheme, "http") && host_ok && port_ok
}

/// The fence around the main window: the port of the kernel that the window shows.
pub struct Fence {
    pub port: u16,
}

/// Whether an address with these parts lies within the fence.
pub open spec fn fence_allows(
    fence: Fence,
    scheme: Seq<char>,
    host: Option<Seq<char>>,
    nav_port: Option<u16>,
) -> bool {
    scheme == "http"@ && host == Some("127.0.0.1"@) && nav_port == Some(fence.port)
}

/// The fence after the window was taken to another port.
pub open spec fn reopened(fence: Fence, port: u16) -> Fence {
    Fence { port }
}

impl Fence {
    /// The fence of a window that opens at a port.
    pub fn new(port: u16) -> (fence: Fence)
        ensures
            fence.port == port,
    {
        Fence { port }
    }

    /// Takes the fence along when the window goes to the kernel at another port.
    pub fn reopen(&mut self, port: u16)
        ensures
            *final(self) == reopened(*old(self), port),
    {
        self.port = port;
    }

    /// Whether the window may go to an address with these parts.
    pub fn allows(&self, scheme: &str, host: Option<&str>, nav_port: Option<u16>) -> (allowed: bool)
        ensures
            allowed == fence_allows(*self, scheme@, host.deep_view(), nav_port),
    {
        navigation_allowed(scheme, host, nav_port, self.port)
    }
}

/// After the window was taken to another port exactly that port is allowed: the kernel's own
/// address is, and no port but that one.
pub proof fn fence_follows_the_kernel(
    fence: Fence,
    port: u16,
    scheme: Seq<char>,
    host: Option<Seq<char>>,
    nav_port: Option<u16>,
)
    ensures
        fence_allows(reopened(fence, port), "http"@, Some("127.0.0.1"@), Some(port)),
        fence_allows(reopened(fence, port), scheme, host, nav_port) ==> nav_port == Some(port)
            && scheme == "http"@ && host == Some("127.0.0.1"@),
{
}

// ---------------------------------------------------------------------------
// Laws
// ---------------------------------------------------------------------------

/// The version of a package is the text under `version` in its manifest, where the manifest can be
/// read and has one.
pub proof fn manifest_tells_the_version(text: Seq<char>)
    ensures
        pkg_version(None) is None,
        json_parsed(text) is None ==> pkg_version(Some(text)) is None,
        json_parsed(text) matches Some(manifest) ==> pkg_version(Some(text)) == (match member(
            manifest,
            "version"@,
        ) {
            Some(JsonView::Str(version)) => Some(version),
            _ => None,
        }),
{
}

/// Whether an overlay is complete: its entry script is there, and its metadata can be read, marks it
/// ready and names this version.
pub open spec fn is_ready(overlay: OverlayProbe, version: Seq<char>) -> bool {
    &&& overlay.bin_js_exists
    &&& overlay.meta matches Some(raw) && json_parsed(raw@) matches Some(meta) && member(
        meta,
        "status"@,
    ) == Some(JsonView::Str("ready"@)) && member(meta, "dshVersion"@) == Some(
        JsonView::Str(version),
    )
}

/// A complete overlay that is newer than the bundled runtime takes its place, and so does any complete
/// one where the bundled version cannot be read; it runs on its own Node where it brings one, else on
/// the bundled one, and it is kept.
pub proof fn newer_overlay_is_used<P>(
    program: P,
    program_shown: String,
    resources: ResourceProbe<P>,
    choice: Result<RuntimeChoice<P>, String>,
    overlay: OverlayProbe,
    paths: OverlayPaths<P>,
    version: Seq<char>,
)
    requires
        is_resolved(
            RuntimeProbe::Installed {
                program,
                program_shown,
                program_exists: true,
                resources: Ok(resources),
            },
            choice,
        ),
        resources.bin_js_exists,
        resources.overlay == Some((overlay, paths)),
        is_ready(overlay, version),
        pkg_version(resources.manifest.deep_view()) matches Some(bundled) ==> versions_order(
            version,
            bundled,
        ) == Ordering::Greater,
    ensures
        choice is Ok,
        ({
            let found = choice->Ok_0;
            &&& !found.clean_overlay
            &&& found.runtime.program == (if overlay.node_exists {
                paths.node
            } else {
                program
            })
            &&& found.runtime.bin_js == paths.bin_js
            &&& found.runtime.bundle == paths.bundle
            &&& found.runtime.source@ == "overlay"@
        }),
{
}

/// In all other cases a complete installation runs the bundled runtime. The overlay is then removed
/// exactly where it is complete but not newer; one that is not complete is left alone.
#[verifier::rlimit(40)]
pub proof fn other_overlays_are_not_used<P>(
    program: P,
    program_shown: String,
    resources: ResourceProbe<P>,
    choice: Result<RuntimeChoice<P>, String>,
)
    requires
        is_resolved(
            RuntimeProbe::Installed {
                program,
                program_shown,
                program_exists: true,
                resources: Ok(resources),
            },
            choice,
        ),
        resources.bin_js_exists,
    ensures
        choice is Ok,
        ({
            let found = choice->Ok_0;
            let bundled = found.runtime.program == program && found.runtime.bin_js
                == resources.bin_js && found.runtime.bundle == resources.bundle
                && found.runtime.source@ == "bundled"@;
            &&& resources.overlay is None ==> bundled && !found.clean_overlay
            &&& resources.overlay matches Some(pair) ==> ((forall|version: Seq<char>|
                !#[trigger] is_ready(pair.0, version)) ==> bundled && !found.clean_overlay)
            &&& resources.overlay matches Some(pair) ==> (forall|version: Seq<char>| #[trigger]
                is_ready(pair.0, version) ==> (pkg_version(
                    resources.manifest.deep_view(),
                ) matches Some(have) ==> (versions_order(version, have) != Ordering::Greater
                    ==> bundled && found.clean_overlay)))
        }),
{
    let verdict = resources_verdict(resources);
    if let Some(pair) = resources.overlay {
        if forall|version: Seq<char>| !#[trigger] is_ready(pair.0, version) {
            if pair.0.bin_js_exists && pair.0.meta is Some && json_parsed((pair.0.meta->0)@) is Some {
                let meta = json_parsed((pair.0.meta->0)@)->0;
                if let Some(JsonView::Str(version)) = member(meta, "dshVersion"@) {
                    assert(!is_ready(pair.0, version));
                }
            }
            assert(verdict is Ignore);
        }
    }
}

/// A development override decides by itself. Without one, what is missing is told, in this order: the
/// path of the executable, its directory, the sidecar, the resources, the entry script.
pub proof fn missing_parts_are_told<P>(
    probe: RuntimeProbe<P>,
    choice: Result<RuntimeChoice<P>, String>,
)
    requires
        is_resolved(probe, choice),
    ensures
        probe matches RuntimeProbe::Dev { program, bin_js, bundle } ==> {
            &&& choice is Ok
            &&& choice->Ok_0.runtime.program == program
            &&& choice->Ok_0.runtime.bin_js == bin_js
            &&& choice->Ok_0.runtime.bundle == bundle
            &&& choice->Ok_0.runtime.source@ == "dev"@
            &&& !choice->Ok_0.clean_overlay
        },
        probe matches RuntimeProbe::NoExecutable { error } ==> choice is Err && choice->Err_0@
            == error@,
        probe is NoDirectory ==> choice is Err && choice->Err_0@ == "无法定位可执行文件目录"@,
        probe matches RuntimeProbe::Installed { program, program_shown, program_exists, resources }
            ==> {
            &&& !program_exists ==> choice is Err && choice->Err_0@ == "未找到内核运行时（"@
                + program_shown@ + "）。请先运行打包脚本 stage-runtime.mjs。"@
            &&& program_exists && resources is Err ==> choice is Err && choice->Err_0@
                == resources->Err_0@
            &&& program_exists && resources is Ok && !resources->Ok_0.bin_js_exists ==> choice is Err
                && choice->Err_0@ == "未找到内核入口（"@ + resources->Ok_0.bin_js_shown@ + "）。"@
        },
{
}

/// Only an announcement announces a port: the line, without white space around it, is the mark, the
/// digits of a port, and something that is no digit or nothing.
pub proof fn port_is_announced_in_full(line: Seq<char>)
    ensures
        ready_port(line) matches Some(port) ==> port <= 65535 && exists|
            digits: Seq<char>,
            rest: Seq<char>,
        |
            trimmed(line) == #[trigger] ("dsh web: http://127.0.0.1:"@ + digits + rest)
                && digits_number(digits, 65535) == Some(port) && (rest.len() == 0 || !is_digit(
                rest[0],
            )),
        !has_prefix(trimmed(line), "dsh web: http://127.0.0.1:"@) ==> ready_port(line) is None,
{
    let text = trimmed(line);
    let mark = "dsh web: http://127.0.0.1:"@;
    if let Some(port) = ready_port(line) {
        let behind = text.subrange(mark.len() as int, text.len() as int);
        let digits = leading_digits(behind);
        leading_digits_end(behind);
        let rest = behind.subrange(digits.len() as int, behind.len() as int);
        assert(behind == digits + rest);
        assert(text == mark + digits + rest);
        if rest.len() > 0 {
            assert(rest[0] == behind[digits.len() as int]);
        }
    }
}

proof fn leading_digits_end(s: Seq<char>)
    ensures
        leading_digits(s).len() <= s.len(),
        s.subrange(0, leading_digits(s).len() as int) == leading_digits(s),
        leading_digits(s).len() < s.len() ==> !is_digit(s[leading_digits(s).len() as int]),
    decreases s.len(),
{
    if s.len() > 0 && is_digit(s[0]) {
        let rest = s.subrange(1, s.len() as int);
        leading_digits_end(rest);
        let n = leading_digits(rest).len() as int;
        assert(s.subrange(0, n + 1) == seq![s[0]] + rest.subrange(0, n));
        if n < rest.len() {
            assert(rest[n] == s[n + 1]);
        }
    }
}

/// A number that is no port is not announced, nor is one without digits.
#[verifier::rlimit(40)]
pub proof fn other_numbers_are_no_ports(n: nat, rest: Seq<char>)
    requires
        n > 65535,
        rest.len() == 0 || !is_digit(rest[0]),
    ensures
        ready_port("dsh web: http://127.0.0.1:"@ + decimal(n) + rest) is None,
        ready_port("dsh web: http://127.0.0.1:"@ + rest) is None,
{
    reveal_strlit("dsh web: http://127.0.0.1:");
    let mark = URL_MARK@;
    let digits = decimal(n);
    decimal_reads_back(n, n);
    let said = mark + digits;
    assert(is_digit(digits[digits.len() - 1]));
    assert(said[said.len() - 1] == digits[digits.len() - 1]);
    trim_end_behind(said, rest);
    assert(!white(mark[0]) && !white(mark.last()));
    trim_end_behind(mark, rest);
    let kept = trim_end(rest);
    trim_end_head(rest);
    assert((said + rest)[0] == mark[0]);
    assert((mark + rest)[0] == mark[0]);
    assert(trimmed(said + rest) == said + kept);
    assert(trimmed(mark + rest) == mark + kept);
    assert((said + kept).subrange(0, mark.len() as int) == mark);
    assert((said + kept).subrange(mark.len() as int, (said + kept).len() as int) == digits + kept);
    assert((mark + kept).subrange(mark.len() as int, (mark + kept).len() as int) == kept);
    leading_digits_of(digits, kept);
    let none = Seq::<char>::empty();
    leading_digits_of(none, kept);
    assert(none + kept == kept);
    assert(digits_number(digits, n) == Some(n));
}

/// The waits are one second before the first restart, two before the second, and four before every
/// later one.
pub proof fn backoff_doubles(attempt: u32)
    ensures
        attempt <= 1 ==> backoff(attempt) == 1,
        attempt == 2 ==> backoff(attempt) == 2,
        attempt >= 3 ==> backoff(attempt) == 4,
{
}

/// The kernel serves exactly where it answers in HTTP/1 with the status 200, whatever follows: no
/// other status will do, not even one that begins so.
#[verifier::rlimit(40)]
pub proof fn status_tells_whether_it_serves(
    minor: Seq<char>,
    gap: Seq<char>,
    status: Seq<char>,
    rest: Seq<char>,
)
    requires
        forall|i: int| 0 <= i < minor.len() ==> !white(#[trigger] minor[i]),
        gap.len() > 0,
        forall|i: int| 0 <= i < gap.len() ==> white(#[trigger] gap[i]),
        status.len() > 0,
        forall|i: int| 0 <= i < status.len() ==> !white(#[trigger] status[i]),
        rest.len() == 0 || white(rest[0]),
    ensures
        response_is_ok("HTTP/1."@ + minor + (gap + (status + rest))) == (status == "200"@),
{
    reveal_strlit("HTTP/1.");
    let mark = "HTTP/1."@;
    let first = mark + minor;
    assert forall|i: int| 0 <= i < first.len() implies !white(#[trigger] first[i]) by {
        if i < mark.len() {
            assert(first[i] == mark[i]);
        } else {
            assert(first[i] == minor[i - mark.len()]);
        }
    }
    second_word_is_the_second(first, gap, status, rest);
    let text = first + (gap + (status + rest));
    assert(text.subrange(0, mark.len() as int) == mark);
}

/// What is no answer in HTTP/1 says that the kernel does not serve.
pub proof fn other_answers_do_not_serve(text: Seq<char>)
    requires
        !has_prefix(text, "HTTP/1."@),
    ensures
        !response_is_ok(text),
{
}

/// Without an answer the kernel does not serve; with one, its text decides.
pub proof fn silence_does_not_serve(answer: Option<&[u8]>, ok: bool)
    requires
        call_ensures(http_is_ok, (answer,), ok),
    ensures
        answer is None ==> !ok,
        answer matches Some(bytes) ==> ok == response_is_ok(utf8_lossy(bytes@)),
{
}

/// The main window may go to the kernel's own origin and nowhere else: another scheme, host or port
/// is refused, and so is an address without a host or a port.
pub proof fn window_stays_with_the_kernel(
    scheme: &str,
    host: Option<&str>,
    nav_port: Option<u16>,
    port: u16,
    allowed: bool,
)
    requires
        call_ensures(navigation_allowed, (scheme, host, nav_port, port), allowed),
    ensures
        scheme@ != "http"@ ==> !allowed,
        host is None || nav_port is None ==> !allowed,
        host matches Some(name) ==> name@ != "127.0.0.1"@ ==> !allowed,
        nav_port matches Some(p) ==> p != port ==> !allowed,
        host matches Some(name) ==> scheme@ == "http"@ && name@ == "127.0.0.1"@ && nav_port == Some(
            port,
        ) ==> allowed,
{
}

/// The kernel's version is that of its package; the bundle's own manifest helps out where the
/// package tells none.
pub proof fn package_tells_the_kernel_version(
    package: Option<&str>,
    bundle: Option<&str>,
    version: String,
)
    requires
        call_ensures(dsh_version, (package, bundle), version),
    ensures
        pkg_version(package.deep_view()) matches Some(v) ==> version@ == v,
        pkg_version(package.deep_view()) is None ==> (pkg_version(bundle.deep_view()) matches Some(v)
            ==> version@ == v),
        pkg_version(package.deep_view()) is None && pkg_version(bundle.deep_view()) is None
            ==> version@ == "未知"@,
{
}

/// The version of Node that is known is told and kept; where none is, what `node --version` printed
/// is, without the white space around it, or that it is unknown.
pub proof fn node_version_is_kept<P>(
    shared: &mut Shared<P>,
    stdout: Option<Vec<u8>>,
    version: String,
)
    requires
        call_ensures(node_version::<P>, (shared, stdout), version),
    ensures
        old(shared).node_version matches Some(known) ==> version@ == known@,
        old(shared).node_version is None ==> (stdout.deep_view() matches Some(bytes) ==> version@
            == trimmed(utf8_lossy(bytes))),
        old(shared).node_version is None && stdout is None ==> version@ == "未知"@,
        final(shared).node_version.deep_view() == Some(version@),
{
}

/// The kernel is started as a web server on a port of its own choice, without opening a browser.
pub proof fn kernel_is_started_as_a_server(bin_js: String, args: Vec<String>)
    requires
        call_ensures(kernel_args, (bin_js,), args),
    ensures
        args.deep_view() == seq![
            bin_js@,
            "--profile"@,
            "web"@,
            "--port"@,
            "0"@,
            "--no-open"@,
        ],
{
}

/// A development override runs the program that it names, else "node", on the entry script of the
/// package that it names.
pub proof fn override_names_the_package(
    app_dir: &str,
    node: Option<String>,
    probe: RuntimeProbe<Vec<String>>,
)
    requires
        call_ensures(dev_probe, (app_dir, node), probe),
    ensures
        probe is Dev,
        node matches Some(name) ==> probe->Dev_program.deep_view() == seq![name@],
        node is None ==> probe->Dev_program.deep_view() == seq!["node"@],
        probe->Dev_bin_js.deep_view() == seq![app_dir@, "lib"@, "bin.js"@],
        probe->Dev_bundle.deep_view() == seq![app_dir@],
{
}

} // verus!
