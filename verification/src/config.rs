//! The settings of the application.
use vstd::prelude::*;

verus! {

/// The settings of the application.
#[derive(Clone, Debug)]
pub struct AppSettings {
    pub workspace_root: Option<String>,
    /// Whether to look for updates at the start; where it is not said, yes.
    pub auto_check: Option<bool>,
    /// The kernel version that is to be skipped.
    pub skipped_kernel_version: Option<String>,
    /// The application version that is to be skipped.
    pub skipped_app_version: Option<String>,
}

/// The mathematical value of [`AppSettings`].
pub struct AppSettingsView {
    pub workspace_root: Option<Seq<char>>,
    pub auto_check: Option<bool>,
    pub skipped_kernel_version: Option<Seq<char>>,
    pub skipped_app_version: Option<Seq<char>>,
}

impl View for AppSettings {
    type V = AppSettingsView;

    open spec fn view(&self) -> AppSettingsView {
        AppSettingsView {
            workspace_root: self.workspace_root.deep_view(),
            auto_check: self.auto_check,
            skipped_kernel_version: self.skipped_kernel_version.deep_view(),
            skipped_app_version: self.skipped_app_version.deep_view(),
        }
    }
}

/// The settings where nothing was set.
pub open spec fn no_settings() -> AppSettingsView {
    AppSettingsView {
        workspace_root: None,
        auto_check: None,
        skipped_kernel_version: None,
        skipped_app_version: None,
    }
}

impl Default for AppSettings {
    fn default() -> (settings: AppSettings)
        ensures
            settings@ == no_settings(),
    {
        AppSettings {
            workspace_root: None,
            auto_check: None,
            skipped_kernel_version: None,
            skipped_app_version: None,
        }
    }
}

impl AppSettings {
    /// Sets the working directory. The other settings stay as they are.
    pub fn set_workspace(&mut self, dir: String)
        ensures
            final(self)@ == (AppSettingsView { workspace_root: Some(dir@), ..old(self)@ }),
    {
        self.workspace_root = Some(dir);
    }
}

/// The settings that were read, or none where they could not be.
pub fn load(read: Option<AppSettings>) -> (settings: AppSettings)
    ensures
        settings@ == (match read {
            Some(found) => found@,
            None => no_settings(),
        }),
{
    match read {
        Some(found) => found,
        None => AppSettings::default(),
    }
}

/// Whether to look for updates at the start. A check by hand does not depend on it.
pub fn auto_check_enabled(settings: &AppSettings) -> (enabled: bool)
    ensures
        enabled == (settings@.auto_check != Some(false)),
{
    match settings.auto_check {
        Some(flag) => flag,
        None => true,
    }
}

/// The environment variable that names the home directory.
pub fn home_variable(is_windows: bool) -> (name: &'static str)
    ensures
        name@ == (if is_windows {
            "USERPROFILE"@
        } else {
            "HOME"@
        }),
{
    if is_windows {
        "USERPROFILE"
    } else {
        "HOME"
    }
}

/// The default working directory: the home directory where the environment names it, else ".".
pub fn home_dir(home: Option<String>) -> (dir: String)
    ensures
        dir@ == (match home {
            Some(found) => found@,
            None => "."@,
        }),
{
    match home {
        Some(found) => found,
        None => ".".to_string(),
    }
}

/// The working directory: the one that was set, else the home directory.
pub fn current_workspace(settings: &AppSettings, home: Option<String>) -> (dir: String)
    ensures
        dir@ == (match (settings@.workspace_root, home) {
            (Some(set), _) => set,
            (None, Some(found)) => found@,
            (None, None) => "."@,
        }),
{
    match &settings.workspace_root {
        Some(set) => set.clone(),
        None => home_dir(home),
    }
}

// ---------------------------------------------------------------------------
// Laws
// ---------------------------------------------------------------------------

/// Only an explicit no keeps the application from looking for updates at its start.
pub proof fn only_a_no_turns_the_check_off(settings: &AppSettings, enabled: bool)
    requires
        call_ensures(auto_check_enabled, (settings,), enabled),
    ensures
        settings.auto_check is None ==> enabled,
        settings.auto_check matches Some(flag) ==> enabled == flag,
{
}

/// The working directory is the one that was set; where none was, the home directory; where that is
/// unknown too, the current one.
pub proof fn set_directory_comes_first(settings: &AppSettings, home: Option<String>, dir: String)
    requires
        call_ensures(current_workspace, (settings, home), dir),
    ensures
        settings.workspace_root matches Some(set) ==> dir@ == set@,
        settings.workspace_root is None ==> (home matches Some(found) ==> dir@ == found@),
        settings.workspace_root is None && home is None ==> dir@ == "."@,
{
}

/// Settings that could not be read are those where nothing was set.
pub proof fn unreadable_settings_are_empty(read: Option<AppSettings>, settings: AppSettings)
    requires
        call_ensures(load, (read,), settings),
    ensures
        read matches Some(found) ==> settings@ == found@,
        read is None ==> settings@.workspace_root is None && settings@.auto_check is None
            && settings@.skipped_kernel_version is None && settings@.skipped_app_version is None,
{
}

/// Setting the working directory changes nothing else.
pub proof fn setting_the_directory_keeps_the_rest(settings: &mut AppSettings, dir: String)
    requires
        call_ensures(AppSettings::set_workspace, (settings, dir), ()),
    ensures
        final(settings)@.workspace_root == Some(dir@),
        final(settings)@.auto_check == old(settings)@.auto_check,
        final(settings)@.skipped_kernel_version == old(settings)@.skipped_kernel_version,
        final(settings)@.skipped_app_version == old(settings)@.skipped_app_version,
{
}

} // verus!
