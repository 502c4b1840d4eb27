use process_guard_service::guardian::Guardian;
use process_guard_service::models::{ChangeType, Config, ConfigChange, MonitorItem};

fn item(id: &str, path: &str) -> MonitorItem {
    MonitorItem {
        id: id.to_string(),
        exe_path: path.to_string(),
        args: None,
        name: format!("name-{}", id),
        minimize: false,
        no_window: false,
        enabled: true,
        heartbeat_timeout_ms: 1000,
    }
}

fn engine(items: Vec<MonitorItem>, now: u64) -> Guardian {
    Guardian::new(Config { items }, now)
}

#[test]
fn construction_enables_every_item_with_one_record_each() {
    let mut off = item("b", "C:\\b.exe");
    off.enabled = false;
    let g = engine(vec![item("a", "C:\\a.exe"), off, item("c", "C:\\c.exe")], 100);
    assert!(g.get_config().items.iter().all(|i| i.enabled));
    assert_eq!(g.get_processes().len(), 3);
    for (p, id) in g.get_processes().iter().zip(["a", "b", "c"]) {
        assert_eq!(p.item.id, id);
        assert!(p.item.enabled);
        assert_eq!(p.process_id, None);
        assert_eq!(p.last_heartbeat_ms, 100);
        assert_eq!(p.restart_count, 0);
    }
    assert!(g.get_pending_changes().is_empty());
    let ids: Vec<String> = g.start_all_processes().iter().map(|i| i.id.clone()).collect();
    assert_eq!(ids, vec!["a", "b", "c"]);
}

#[test]
fn construction_with_a_repeated_id_keeps_the_later_record() {
    let g = engine(vec![item("a", "C:\\one.exe"), item("a", "C:\\two.exe")], 0);
    assert_eq!(g.get_config().items.len(), 2);
    assert_eq!(g.get_processes().len(), 1);
    assert_eq!(g.get_processes()[0].item.exe_path, "C:\\two.exe");
}

#[test]
fn heartbeat_for_unknown_id_changes_nothing() {
    let mut g = engine(vec![item("a", "C:\\a.exe")], 100);
    assert!(!g.update_heartbeat("nope", 900));
    assert_eq!(g.get_processes()[0].last_heartbeat_ms, 100);
    assert_eq!(g.get_processes().len(), 1);
}

#[test]
fn heartbeat_for_known_id_resets_the_timer() {
    let mut g = engine(vec![item("a", "C:\\a.exe")], 100);
    assert!(g.get_processes()[0].is_heartbeat_timeout(5_000));
    assert!(g.update_heartbeat("a", 5_000));
    assert_eq!(g.get_processes()[0].last_heartbeat_ms, 5_000);
    assert!(!g.get_processes()[0].is_heartbeat_timeout(5_000));
}

#[test]
fn healthy_item_is_not_restarted() {
    let mut g = engine(vec![item("a", "C:\\a.exe")], 0);
    assert!(g.record_start("a", 42, 0));
    let plan = g.check_processes(1_000, &vec![true]);
    assert!(plan.is_empty());
    assert_eq!(g.get_processes()[0].last_check_ms, 1_000);
    assert_eq!(g.get_processes()[0].restart_count, 0);
}

#[test]
fn timed_out_item_is_restarted_once_even_if_alive() {
    let mut g = engine(vec![item("a", "C:\\a.exe"), item("b", "C:\\b.exe")], 0);
    assert!(g.record_start("a", 42, 0));
    assert!(g.record_start("b", 43, 0));
    assert!(g.update_heartbeat("b", 2_500));
    let plan = g.check_processes(3_000, &vec![true, true]);
    assert_eq!(plan.len(), 1);
    assert_eq!(plan[0].item.id, "a");
    assert_eq!(plan[0].kill_pid, Some(42));
    assert!(g.record_restart("a", 50, 3_100));
    let p = &g.get_processes()[0];
    assert_eq!(p.process_id, Some(50));
    assert_eq!(p.last_heartbeat_ms, 3_100);
    assert_eq!(p.restart_count, 1);
    assert_eq!(g.get_processes()[1].restart_count, 0);
}

#[test]
fn dead_item_is_restarted_without_a_kill() {
    let mut g = engine(vec![item("a", "C:\\a.exe")], 0);
    assert!(g.record_start("a", 42, 0));
    let plan = g.check_processes(10, &vec![false]);
    assert_eq!(plan.len(), 1);
    assert_eq!(plan[0].kill_pid, None);
    let plan = g.check_processes(20, &vec![]);
    assert_eq!(plan.len(), 1);
}

#[test]
fn disabled_item_is_skipped_by_the_cycle() {
    let mut g = engine(vec![item("a", "C:\\a.exe")], 0);
    let stop = ConfigChange { item: item("a", "C:\\a.exe"), change_type: ChangeType::Stop };
    assert!(g.apply_change(stop, None, 0));
    let plan = g.check_processes(99_999, &vec![false]);
    assert!(plan.is_empty());
    assert_eq!(g.get_processes()[0].last_check_ms, 0);
}

#[test]
fn failed_restart_leaves_the_record_for_the_next_cycle() {
    let mut g = engine(vec![item("a", "C:\\a.exe")], 0);
    let plan = g.check_processes(10, &vec![false]);
    assert_eq!(plan.len(), 1);
    let plan = g.check_processes(3_010, &vec![false]);
    assert_eq!(plan.len(), 1);
    assert_eq!(g.get_processes()[0].restart_count, 0);
    assert!(!g.record_restart("missing", 1, 0));
}

#[test]
fn stop_then_start_in_one_drain_leaves_the_item_enabled() {
    let mut g = engine(vec![item("a", "C:\\a.exe")], 0);
    assert!(g.record_start("a", 42, 0));
    g.add_change(ConfigChange { item: item("a", "C:\\a.exe"), change_type: ChangeType::Stop });
    g.add_change(ConfigChange { item: item("a", "C:\\a.exe"), change_type: ChangeType::Start });
    let changes = g.take_pending_changes();
    assert_eq!(changes.len(), 2);
    assert!(g.get_pending_changes().is_empty());
    assert_eq!(g.stop_target(&changes[0]), Some(42));
    assert_eq!(g.stop_target(&changes[1]), None);
    let mut it = changes.into_iter();
    assert!(g.apply_change(it.next().unwrap(), None, 10));
    assert!(g.apply_change(it.next().unwrap(), Some(77), 20));
    let p = &g.get_processes()[0];
    assert!(p.item.enabled);
    assert_eq!(p.process_id, Some(77));
    assert!(g.get_config().items[0].enabled);
    let status = g.get_status(25, &vec![true]);
    assert!(status.items[0].enabled);
    assert!(status.items[0].is_alive);
}

#[test]
fn stop_start_change_applies_new_settings() {
    let mut g = engine(vec![item("a", "C:\\a.exe")], 0);
    let mut updated = item("a", "C:\\a.exe");
    updated.args = Some("--v2".to_string());
    let change = ConfigChange { item: updated, change_type: ChangeType::StopStart };
    assert!(g.apply_change(change, Some(9), 50));
    let p = &g.get_processes()[0];
    assert_eq!(p.item.args.as_deref(), Some("--v2"));
    assert_eq!(p.process_id, Some(9));
    assert_eq!(p.restart_count, 0);
    assert!(p.item.enabled);
}

#[test]
fn failed_start_changes_nothing() {
    let mut g = engine(vec![], 0);
    let change = ConfigChange { item: item("n", "C:\\n.exe"), change_type: ChangeType::Start };
    assert!(!g.apply_change(change, None, 5));
    assert!(g.get_processes().is_empty());
    assert!(g.get_config().items.is_empty());
}

#[test]
fn start_of_a_new_item_adds_it_everywhere() {
    let mut g = engine(vec![], 0);
    let change = ConfigChange { item: item("n", "C:\\n.exe"), change_type: ChangeType::Start };
    assert!(g.apply_change(change, Some(5), 5));
    assert_eq!(g.get_processes().len(), 1);
    assert_eq!(g.get_config().items.len(), 1);
    assert_eq!(g.get_config().items[0].id, "n");
}

#[test]
fn stop_and_remove_drops_the_item() {
    let mut g = engine(vec![item("a", "C:\\a.exe"), item("b", "C:\\b.exe")], 0);
    let change = ConfigChange { item: item("a", "C:\\a.exe"), change_type: ChangeType::StopRemove };
    assert!(g.apply_change(change, None, 5));
    assert_eq!(g.get_processes().len(), 1);
    assert_eq!(g.get_processes()[0].item.id, "b");
    assert_eq!(g.get_config().items.len(), 1);
}

#[test]
fn stop_of_an_unknown_item_persists_nothing() {
    let mut g = engine(vec![item("a", "C:\\a.exe")], 0);
    let change = ConfigChange { item: item("x", "C:\\x.exe"), change_type: ChangeType::Stop };
    assert!(!g.apply_change(change, None, 5));
    assert!(g.get_processes()[0].item.enabled);
}

#[test]
fn status_reports_each_record() {
    let mut g = engine(vec![item("a", "C:\\a.exe"), item("b", "C:\\b.exe")], 1_000);
    assert!(g.record_start("a", 7, 1_000));
    let st = g.get_status(1_400, &vec![true, true]);
    assert!(st.service_running);
    assert_eq!(st.total_items, 2);
    assert_eq!(st.items[0].id, "a");
    assert_eq!(st.items[0].process_id, Some(7));
    assert_eq!(st.items[0].last_heartbeat_ms, 400);
    assert!(st.items[0].is_alive);
    assert!(st.items[0].is_heartbeat_ok);
    assert!(!st.items[1].is_alive);
    let later = g.get_status(2_500, &vec![false]);
    assert!(!later.items[0].is_alive);
    assert!(!later.items[0].is_heartbeat_ok);
    assert_eq!(later.items[1].last_heartbeat_ms, 1_500);
}

#[test]
fn stop_start_of_a_disabled_update_leaves_the_record_enabled() {
    let mut g = engine(vec![item("a", "C:\\a.exe")], 0);
    let mut updated = item("a", "C:\\a2.exe");
    updated.enabled = false;
    let change = ConfigChange { item: updated, change_type: ChangeType::StopStart };
    assert!(g.apply_change(change, Some(11), 40));
    let p = &g.get_processes()[0];
    assert!(p.item.enabled);
    assert_eq!(p.item.exe_path, "C:\\a2.exe");
    assert_eq!(p.process_id, Some(11));
    let c = &g.get_config().items[0];
    assert!(c.enabled);
    assert_eq!(c.exe_path, "C:\\a2.exe");
    let st = g.get_status(41, &vec![true]);
    assert!(st.items[0].enabled);
}

#[test]
fn start_of_a_known_item_stores_its_new_settings() {
    let mut g = engine(vec![item("a", "C:\\a.exe"), item("b", "C:\\b.exe")], 0);
    let mut newer = item("a", "C:\\a.exe");
    newer.args = Some("--port 9".to_string());
    newer.heartbeat_timeout_ms = 7000;
    let change = ConfigChange { item: newer, change_type: ChangeType::Start };
    assert!(g.apply_change(change, Some(3), 10));
    assert_eq!(g.get_config().items.len(), 2);
    let c = &g.get_config().items[0];
    assert_eq!(c.args.as_deref(), Some("--port 9"));
    assert_eq!(c.heartbeat_timeout_ms, 7000);
    assert!(c.enabled);
    assert_eq!(g.get_config().items[1].id, "b");
}

#[test]
fn start_of_a_new_disabled_item_stores_it_enabled() {
    let mut g = engine(vec![], 0);
    let mut fresh = item("n", "C:\\n.exe");
    fresh.enabled = false;
    let change = ConfigChange { item: fresh, change_type: ChangeType::Start };
    assert!(g.apply_change(change, Some(5), 5));
    assert!(g.get_processes()[0].item.enabled);
    assert!(g.get_config().items[0].enabled);
}
