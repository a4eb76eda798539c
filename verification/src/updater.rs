//! Update settings and the state of an update: which channel is followed,
//! how often it is checked, and where a download or an install stands.

use vstd::prelude::*;

verus! {

/// Which releases are followed.
#[derive(Debug, Clone, Copy, PartialEq, Eq, Structural)]
pub enum UpdateChannel {
    Stable,
    Beta,
    Canary,
}

/// Where an update stands.
#[derive(Debug, Clone, Copy, PartialEq, Eq, Structural)]
pub enum UpdateStatus {
    Idle,
    Checking,
    Available,
    Downloading,
    Ready,
    Installing,
    Error,
}

/// How updates are looked for and applied.
#[derive(Debug, Clone)]
pub struct UpdateConfig {
    /// Seconds between two checks
    pub check_interval: u64,
    pub auto_download: bool,
    pub auto_install: bool,
    pub channel: UpdateChannel,
    /// Where releases are published
    pub registry_url: String,
}

/// The place releases are published unless configured otherwise.
pub const DEFAULT_REGISTRY_URL: &'static str = "https://github.com/user/aster/releases";

impl Default for UpdateConfig {
    /// Checks once a day on the stable channel, downloads and installs only on
    /// request.
    fn default() -> (r: Self)
        ensures
            r.check_interval == 86400,
            !r.auto_download,
            !r.auto_install,
            r.channel == UpdateChannel::Stable,
            r.registry_url@ == DEFAULT_REGISTRY_URL@,
    {
        UpdateConfig {
            check_interval: 86400,
            auto_download: false,
            auto_install: false,
            channel: UpdateChannel::Stable,
            registry_url: String::from_str(DEFAULT_REGISTRY_URL),
        }
    }
}

/// Options of a download or an install.
#[derive(Debug, Clone)]
pub struct UpdateOptions {
    /// The version wanted; the latest when absent
    pub version: Option<String>,
    pub force: bool,
    /// Only say what would be done
    pub dry_run: bool,
}

impl Default for UpdateOptions {
    fn default() -> (r: Self)
        ensures
            r.version is None,
            !r.force,
            !r.dry_run,
    {
        UpdateOptions { version: None, force: false, dry_run: false }
    }
}

/// The update state of a running program.
#[derive(Debug)]
pub struct UpdateManager {
    config: UpdateConfig,
    status: UpdateStatus,
    current_version: String,
}

impl UpdateManager {
    /// The configuration the manager was made with.
    pub closed spec fn config_spec(&self) -> UpdateConfig {
        self.config
    }

    /// Where the update stands.
    pub closed spec fn status_spec(&self) -> UpdateStatus {
        self.status
    }

    /// The version that is running.
    pub closed spec fn version_spec(&self) -> Seq<char> {
        self.current_version@
    }

    /// A manager that has done nothing yet, for the program at `current_version`.
    pub fn new(config: UpdateConfig, current_version: &str) -> (r: Self)
        ensures
            r.config_spec() == config,
            r.status_spec() == UpdateStatus::Idle,
            r.version_spec() == current_version@,
    {
        UpdateManager { config, status: UpdateStatus::Idle, current_version: String::from_str(current_version) }
    }

    /// Where the update stands.
    pub fn get_status(&self) -> (r: UpdateStatus)
        ensures
            r == self.status_spec(),
    {
        self.status
    }

    /// The version that is running.
    pub fn get_current_version(&self) -> (r: &str)
        ensures
            r@ == self.version_spec(),
    {
        self.current_version.as_str()
    }

    /// The configuration.
    pub fn get_config(&self) -> (r: &UpdateConfig)
        ensures
            *r == self.config_spec(),
    {
        &self.config
    }

    /// Downloads an update: a dry run changes nothing; otherwise the update is
    /// then ready to install.  It always succeeds.
    pub fn download(&mut self, version: Option<&str>, options: &UpdateOptions) -> (r: Result<(), String>)
        ensures
            r is Ok,
            final(self).status_spec() == if options.dry_run {
                old(self).status_spec()
            } else {
                UpdateStatus::Ready
            },
            final(self).config_spec() == old(self).config_spec(),
            final(self).version_spec() == old(self).version_spec(),
    {
        if options.dry_run {
            return Ok(());
        }
        self.status = UpdateStatus::Downloading;
        self.status = UpdateStatus::Ready;
        Ok(())
    }

    /// Installs an update: a dry run changes nothing; otherwise the manager is
    /// idle again afterwards.  It always succeeds.
    pub fn install(&mut self, version: Option<&str>, options: &UpdateOptions) -> (r: Result<(), String>)
        ensures
            r is Ok,
            final(self).status_spec() == if options.dry_run {
                old(self).status_spec()
            } else {
                UpdateStatus::Idle
            },
            final(self).config_spec() == old(self).config_spec(),
            final(self).version_spec() == old(self).version_spec(),
    {
        if options.dry_run {
            return Ok(());
        }
        self.status = UpdateStatus::Installing;
        self.status = UpdateStatus::Idle;
        Ok(())
    }
}

} // verus!
