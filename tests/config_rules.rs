use process_guard_service::config::{
    add_item, deduplicate_exe_paths, force_enable_all, get_item, get_item_mut, remove_item, update_item, ConfigError,
};
use process_guard_service::models::{Config, MonitorItem};

fn item(id: &str, path: &str) -> MonitorItem {
    MonitorItem {
        id: id.to_string(),
        exe_path: path.to_string(),
        args: None,
        name: format!("name-{}", id),
        minimize: false,
        no_window: false,
        enabled: true,
        heartbeat_timeout_ms: 1000,
    }
}

fn ids(c: &Config) -> Vec<String> {
    c.items.iter().map(|i| i.id.clone()).collect()
}

#[test]
fn add_item_rejects_a_reused_id() {
    let mut c = Config { items: vec![item("a", "C:\\a.exe")] };
    assert!(add_item(&mut c, item("b", "C:\\b.exe")).is_ok());
    assert_eq!(ids(&c), vec!["a", "b"]);
    match add_item(&mut c, item("a", "C:\\other.exe")) {
        Err(ConfigError::AlreadyExists(id)) => assert_eq!(id, "a"),
        _ => panic!("expected AlreadyExists"),
    }
    assert_eq!(ids(&c), vec!["a", "b"]);
    assert_eq!(c.items[0].exe_path, "C:\\a.exe");
}

#[test]
fn update_item_replaces_the_first_match() {
    let mut c = Config { items: vec![item("a", "C:\\a.exe"), item("b", "C:\\b.exe")] };
    assert!(update_item(&mut c, item("b", "C:\\new.exe")).is_ok());
    assert_eq!(c.items[1].exe_path, "C:\\new.exe");
    assert_eq!(c.items[0].exe_path, "C:\\a.exe");
    match update_item(&mut c, item("zz", "C:\\z.exe")) {
        Err(ConfigError::NotFound(id)) => assert_eq!(id, "zz"),
        _ => panic!("expected NotFound"),
    }
    assert_eq!(c.items.len(), 2);
}

#[test]
fn remove_item_drops_every_match() {
    let mut c = Config { items: vec![item("a", "C:\\a.exe"), item("b", "C:\\b.exe"), item("a", "C:\\c.exe")] };
    assert!(remove_item(&mut c, "a").is_ok());
    assert_eq!(ids(&c), vec!["b"]);
    match remove_item(&mut c, "a") {
        Err(ConfigError::NotFound(id)) => assert_eq!(id, "a"),
        _ => panic!("expected NotFound"),
    }
    assert_eq!(ids(&c), vec!["b"]);
}

#[test]
fn get_item_finds_the_first_match() {
    let mut c = Config { items: vec![item("a", "C:\\a.exe"), item("a", "C:\\second.exe")] };
    assert_eq!(get_item(&c, "a").map(|i| i.exe_path.clone()), Some("C:\\a.exe".to_string()));
    assert!(get_item(&c, "missing").is_none());
    if let Some(it) = get_item_mut(&mut c, "a") {
        it.enabled = false;
    }
    assert!(!c.items[0].enabled);
    assert!(c.items[1].enabled);
    assert!(get_item_mut(&mut c, "missing").is_none());
}

#[test]
fn force_enable_all_reports_a_change() {
    let mut off = item("b", "C:\\b.exe");
    off.enabled = false;
    let mut c = Config { items: vec![item("a", "C:\\a.exe"), off] };
    assert!(force_enable_all(&mut c));
    assert!(c.items.iter().all(|i| i.enabled));
    assert!(!force_enable_all(&mut c));
}

#[test]
fn paths_differing_only_by_case_collapse_to_the_later_one() {
    let c = Config { items: vec![item("first", "C:\\a.exe"), item("second", "C:\\A.EXE")] };
    let d = deduplicate_exe_paths(c);
    assert_eq!(d.items.len(), 1);
    assert_eq!(d.items[0].id, "second");
    assert_eq!(d.items[0].exe_path, "C:\\A.EXE");
}

#[test]
fn deduplicated_items_are_ordered_by_lowercased_path() {
    let c = Config {
        items: vec![
            item("z1", "C:\\Zeta.exe"),
            item("b1", "C:\\beta.exe"),
            item("z2", "c:\\zeta.EXE"),
            item("a1", "C:\\Alpha.exe"),
        ],
    };
    let d = deduplicate_exe_paths(c);
    assert_eq!(ids(&d), vec!["a1", "b1", "z2"]);
}

#[test]
fn load_keeps_unique_config() {
    let c = Config { items: vec![item("z", "C:\\z.exe"), item("a", "C:\\a.exe"), item("m", "D:\\m.exe")] };
    let d = deduplicate_exe_paths(c.clone());
    assert_eq!(ids(&d), ids(&c));
    let e = deduplicate_exe_paths(d.clone());
    assert_eq!(ids(&e), ids(&d));
}

#[test]
fn deduplicating_twice_changes_nothing_more() {
    let c = Config { items: vec![item("x", "C:\\X.exe"), item("y", "C:\\x.exe"), item("w", "C:\\w.exe")] };
    let d = deduplicate_exe_paths(c);
    assert_eq!(ids(&d), vec!["w", "y"]);
    let e = deduplicate_exe_paths(d.clone());
    assert_eq!(ids(&e), ids(&d));
}

#[test]
fn empty_config_stays_empty() {
    assert!(deduplicate_exe_paths(Config::new()).items.is_empty());
}
