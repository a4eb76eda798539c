use aster::updater::{UpdateChannel, UpdateConfig, UpdateManager, UpdateOptions, UpdateStatus};

#[test]
fn default_config_checks_daily_on_stable() {
    let c = UpdateConfig::default();
    assert_eq!(c.check_interval, 24 * 60 * 60);
    assert!(!c.auto_download);
    assert!(!c.auto_install);
    assert_eq!(c.channel, UpdateChannel::Stable);
    assert_eq!(c.registry_url, "https://github.com/user/aster/releases");
}

#[test]
fn download_and_install_move_the_status() {
    let mut m = UpdateManager::new(UpdateConfig::default(), "1.2.3");
    assert_eq!(m.get_status(), UpdateStatus::Idle);
    assert_eq!(m.get_current_version(), "1.2.3");
    assert_eq!(m.get_config().channel, UpdateChannel::Stable);

    let dry = UpdateOptions { version: None, force: false, dry_run: true };
    assert!(m.download(None, &dry).is_ok());
    assert_eq!(m.get_status(), UpdateStatus::Idle);

    let opts = UpdateOptions::default();
    assert!(m.download(Some("2.0.0"), &opts).is_ok());
    assert_eq!(m.get_status(), UpdateStatus::Ready);
    assert!(m.install(None, &dry).is_ok());
    assert_eq!(m.get_status(), UpdateStatus::Ready);
    assert!(m.install(None, &opts).is_ok());
    assert_eq!(m.get_status(), UpdateStatus::Idle);
}
