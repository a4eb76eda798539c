use aster::plugins::{PluginManager, PluginMetadata};

fn meta(name: &str) -> PluginMetadata {
    PluginMetadata { name: name.to_string(), version: "0.1.0".to_string(), description: None }
}

#[test]
fn manager_searches_home_and_project_dirs() {
    let m = PluginManager::new("1.0.0", Some("/home/u"), Some("/work"));
    assert_eq!(m.plugin_dirs(), &vec!["/home/u/.aster/plugins".to_string(), "/work/.aster/plugins".to_string()]);
    assert_eq!(m.loaded_count(), 0);
    assert_eq!(m.enabled_count(), 0);
}

#[test]
fn added_dirs_are_listed_once() {
    let mut m = PluginManager::new("1.0.0", Some("/home/u"), Some("/work"));
    m.add_plugin_dir("/extra");
    m.add_plugin_dir("/extra");
    assert_eq!(m.plugin_dirs().len(), 3);
    assert_eq!(m.plugin_dirs()[2], "/extra");
}

#[test]
fn discovered_plugins_start_enabled_and_can_be_disabled() {
    let mut m = PluginManager::new("1.0.0", Some("/home/u"), None);
    let s = m.register_discovered(meta("alpha"), "/p/alpha");
    assert!(s.enabled);
    assert!(!s.loaded);
    m.register_discovered(meta("beta"), "/p/beta");
    assert_eq!(m.get_plugin_states().len(), 2);
    assert_eq!(m.enabled_count(), 2);
    assert!(m.set_enabled("alpha", false));
    assert!(!m.set_enabled("missing", true));
    assert_eq!(m.enabled_count(), 1);
    let a = m.get_plugin_state("alpha").unwrap();
    assert!(!a.enabled);
    assert_eq!(a.path, "/p/alpha");
    assert!(m.get_plugin_state("gamma").is_none());
}

#[test]
fn rediscovery_replaces_the_state() {
    let mut m = PluginManager::new("1.0.0", None, None);
    m.register_discovered(meta("alpha"), "/old");
    m.register_discovered(meta("alpha"), "/new");
    assert_eq!(m.get_plugin_states().len(), 1);
    assert_eq!(m.get_plugin_state("alpha").unwrap().path, "/new");
}
