use process_guard_service::guardian::Guardian;
use process_guard_service::models::{ChangeType, Config, MonitorItem, PipeRequest, PipeResponse, ResponseData};
use process_guard_service::protocol::Dispatch;

fn item(id: &str, path: &str) -> MonitorItem {
    MonitorItem {
        id: id.to_string(),
        exe_path: path.to_string(),
        args: None,
        name: format!("name-{}", id),
        minimize: false,
        no_window: false,
        enabled: true,
        heartbeat_timeout_ms: 1000,
    }
}

fn request(kind: &str) -> PipeRequest {
    PipeRequest { request_type: kind.to_string(), id: None, config: None, item_id: None, timestamp: None }
}

fn with_id(kind: &str, id: &str) -> PipeRequest {
    PipeRequest { id: Some(id.to_string()), ..request(kind) }
}

fn with_item(kind: &str, it: MonitorItem) -> PipeRequest {
    PipeRequest { config: Some(it), ..request(kind) }
}

fn reply(d: Dispatch) -> PipeResponse {
    match d {
        Dispatch::Reply(r) => r,
        _ => panic!("expected a reply"),
    }
}

fn message(r: &PipeResponse) -> String {
    r.message.clone().unwrap_or_default()
}

fn engine() -> Guardian {
    Guardian::new(Config { items: vec![item("a", "C:\\Apps\\A.exe")] }, 0)
}

#[test]
fn add_rejects_a_path_differing_only_by_case() {
    let mut g = engine();
    let r = reply(g.handle_request(&with_item("add", item("b", "c:\\apps\\a.EXE")), 0));
    assert!(!r.success);
    assert_eq!(message(&r), "Executable path already monitored");
    assert_eq!(g.get_config().items.len(), 1);
    assert!(g.get_pending_changes().is_empty());
}

#[test]
fn add_rejects_a_reused_id() {
    let mut g = engine();
    let r = reply(g.handle_request(&with_item("add", item("a", "C:\\other.exe")), 0));
    assert!(!r.success);
    assert_eq!(message(&r), "Item with this ID already exists");
    assert_eq!(g.get_config().items.len(), 1);
    assert!(g.get_pending_changes().is_empty());
}

#[test]
fn add_accepts_then_queues_after_persist() {
    let mut g = engine();
    let d = g.handle_request(&with_item("add", item("b", "C:\\b.exe")), 0);
    let save = match d {
        Dispatch::Persist(p) => p,
        _ => panic!("expected persist"),
    };
    assert_eq!(save.change.change_type, ChangeType::Start);
    assert_eq!(save.change.item.id, "b");
    assert_eq!(g.get_config().items.len(), 2);
    assert!(g.get_pending_changes().is_empty());
    let r = g.commit_save(save, Ok(()));
    assert!(r.success);
    assert_eq!(message(&r), "Item added");
    assert_eq!(g.get_pending_changes().len(), 1);
}

#[test]
fn failed_persist_queues_nothing() {
    let mut g = engine();
    let save = match g.handle_request(&with_item("add", item("b", "C:\\b.exe")), 0) {
        Dispatch::Persist(p) => p,
        _ => panic!("expected persist"),
    };
    let r = g.commit_save(save, Err("disk full".to_string()));
    assert!(!r.success);
    assert_eq!(message(&r), "Failed to save config: disk full");
    assert!(g.get_pending_changes().is_empty());
}

#[test]
fn missing_arguments_are_errors() {
    let mut g = engine();
    assert_eq!(message(&reply(g.handle_request(&request("add"), 0))), "Missing config");
    assert_eq!(message(&reply(g.handle_request(&request("update"), 0))), "Missing config");
    assert_eq!(message(&reply(g.handle_request(&request("remove"), 0))), "Missing id");
    assert_eq!(message(&reply(g.handle_request(&request("stop"), 0))), "Missing id");
    assert_eq!(message(&reply(g.handle_request(&request("start"), 0))), "Missing id");
    assert_eq!(message(&reply(g.handle_request(&request("heartbeat"), 0))), "Missing item_id");
}

#[test]
fn unknown_request_type_is_named_in_the_error() {
    let mut g = engine();
    let r = reply(g.handle_request(&request("reboot"), 0));
    assert!(!r.success);
    assert_eq!(message(&r), "Unknown request type: reboot");
}

#[test]
fn remove_of_unknown_id_changes_nothing() {
    let mut g = engine();
    let r = reply(g.handle_request(&with_id("remove", "zz"), 0));
    assert!(!r.success);
    assert_eq!(message(&r), "Item not found");
    assert_eq!(g.get_config().items.len(), 1);
    assert!(g.get_pending_changes().is_empty());
}

#[test]
fn remove_of_known_id_reaches_config_and_runtime() {
    let mut g = engine();
    let save = match g.handle_request(&with_id("remove", "a"), 0) {
        Dispatch::Persist(p) => p,
        _ => panic!("expected persist"),
    };
    assert!(g.get_config().items.is_empty());
    assert_eq!(save.change.change_type, ChangeType::StopRemove);
    let r = g.commit_save(save, Ok(()));
    assert_eq!(message(&r), "Item removed");
    let changes = g.take_pending_changes();
    assert_eq!(changes.len(), 1);
    for c in changes {
        g.apply_change(c, None, 10);
    }
    assert!(g.get_processes().is_empty());
    assert!(g.get_config().items.is_empty());
}

#[test]
fn update_replaces_and_queues_stop_start() {
    let mut g = engine();
    let mut changed = item("a", "C:\\Apps\\A.exe");
    changed.heartbeat_timeout_ms = 5000;
    let save = match g.handle_request(&with_item("update", changed), 0) {
        Dispatch::Persist(p) => p,
        _ => panic!("expected persist"),
    };
    assert_eq!(g.get_config().items[0].heartbeat_timeout_ms, 5000);
    assert_eq!(save.change.change_type, ChangeType::StopStart);
    assert_eq!(message(&g.commit_save(save, Ok(()))), "Item updated");
    let r = reply(g.handle_request(&with_item("update", item("zz", "C:\\z.exe")), 0));
    assert_eq!(message(&r), "Item not found");
}

#[test]
fn stop_and_start_queue_immediately() {
    let mut g = engine();
    let r = reply(g.handle_request(&with_id("stop", "a"), 0));
    assert_eq!(message(&r), "Item stopped");
    let r = reply(g.handle_request(&with_id("start", "a"), 0));
    assert_eq!(message(&r), "Item started");
    let pending = g.get_pending_changes();
    assert_eq!(pending.len(), 2);
    assert_eq!(pending[0].change_type, ChangeType::Stop);
    assert_eq!(pending[1].change_type, ChangeType::Start);
    assert!(pending[1].item.enabled);
    let r = reply(g.handle_request(&with_id("stop", "zz"), 0));
    assert_eq!(message(&r), "Item not found");
}

#[test]
fn heartbeat_request_updates_the_record() {
    let mut g = engine();
    let req = PipeRequest { item_id: Some("a".to_string()), timestamp: Some(1), ..request("heartbeat") };
    let r = reply(g.handle_request(&req, 700));
    assert!(r.success);
    assert_eq!(message(&r), "Heartbeat updated");
    assert_eq!(g.get_processes()[0].last_heartbeat_ms, 700);
    let req = PipeRequest { item_id: Some("zz".to_string()), ..request("heartbeat") };
    let r = reply(g.handle_request(&req, 800));
    assert!(!r.success);
    assert_eq!(message(&r), "Item not found");
}

#[test]
fn list_and_status_carry_data() {
    let mut g = engine();
    let r = reply(g.handle_request(&request("list"), 0));
    assert_eq!(message(&r), "Items list");
    match r.data {
        Some(ResponseData::Items(v)) => assert_eq!(v.len(), 1),
        _ => panic!("expected items"),
    }
    assert!(matches!(g.handle_request(&request("status"), 0), Dispatch::Status));
    let r = g.handle_status(10, &vec![false]);
    assert_eq!(message(&r), "Service status");
    match r.data {
        Some(ResponseData::Status(s)) => assert_eq!(s.total_items, 1),
        _ => panic!("expected status"),
    }
}
