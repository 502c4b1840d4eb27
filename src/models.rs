use vstd::prelude::*;

verus! {

/// Heartbeat timeout given to an item whose stored form does not name one.
pub const DEFAULT_HEARTBEAT_TIMEOUT_MS: u64 = 1000;

/// Name under which the service registers with the service manager.
pub const SERVICE_NAME: &'static str = "ProcessGuardService";

/// Name of the local channel the control protocol listens on.
pub const PIPE_NAME: &'static str = "ProcessGuardService";

/// File name of the persisted configuration, beside the executable.
pub const CONFIG_FILE_NAME: &'static str = "config.json";

/// Period of the supervision check cycle.
pub const CHECK_INTERVAL_MS: u64 = 3000;

/// A configured executable that the supervisor keeps alive.
pub struct MonitorItem {
    pub id: String,
    pub exe_path: String,
    pub args: Option<String>,
    pub name: String,
    pub minimize: bool,
    pub no_window: bool,
    pub enabled: bool,
    pub heartbeat_timeout_ms: u64,
}

/// The heartbeat timeout an item gets when its stored form has none.
pub fn default_heartbeat_timeout() -> (r: u64)
    ensures
        r == DEFAULT_HEARTBEAT_TIMEOUT_MS,
{
    DEFAULT_HEARTBEAT_TIMEOUT_MS
}

fn clone_opt_string(s: &Option<String>) -> (r: Option<String>)
    ensures
        r == *s,
{
    match s {
        Some(v) => Some(v.clone()),
        None => None,
    }
}

impl Clone for MonitorItem {
    fn clone(&self) -> (r: Self)
        ensures
            r == *self,
    {
        MonitorItem {
            id: self.id.clone(),
            exe_path: self.exe_path.clone(),
            args: clone_opt_string(&self.args),
            name: self.name.clone(),
            minimize: self.minimize,
            no_window: self.no_window,
            enabled: self.enabled,
            heartbeat_timeout_ms: self.heartbeat_timeout_ms,
        }
    }
}

/// Relies on uuid's `Uuid::new_v4` for a random identifier, and on its
/// `Display`, which writes the 36-character hyphenated form.
#[verifier::external_body]
fn new_item_id() -> (r: String)
    ensures
        r@.len() == 36,
{
    uuid::Uuid::new_v4().to_string()
}

impl MonitorItem {
    /// A new enabled item with a fresh random id, no arguments, a visible
    /// window and the default heartbeat timeout.
    pub fn new(exe_path: String, name: String) -> (r: Self)
        ensures
            r.id@.len() == 36,
            r.exe_path == exe_path,
            r.args.is_none(),
            r.name == name,
            !r.minimize,
            !r.no_window,
            r.enabled,
            r.heartbeat_timeout_ms == DEFAULT_HEARTBEAT_TIMEOUT_MS,
    {
        MonitorItem {
            id: new_item_id(),
            exe_path,
            args: None,
            name,
            minimize: false,
            no_window: false,
            enabled: true,
            heartbeat_timeout_ms: DEFAULT_HEARTBEAT_TIMEOUT_MS,
        }
    }
}

/// The runtime record of a monitored item. Times are milliseconds on a
/// monotonic clock supplied by the caller.
pub struct MonitoredProcess {
    pub item: MonitorItem,
    pub process_id: Option<u32>,
    pub last_heartbeat_ms: u64,
    pub last_check_ms: u64,
    pub restart_count: u32,
}

/// Whether more than the item's timeout has passed since the last heartbeat,
/// at time `now`. A clock reading before the heartbeat counts as no time passed.
pub open spec fn heartbeat_timed_out(p: MonitoredProcess, now: u64) -> bool {
    now > p.last_heartbeat_ms + p.item.heartbeat_timeout_ms
}

/// Milliseconds since the last heartbeat at time `now`, never negative.
pub open spec fn heartbeat_age(p: MonitoredProcess, now: u64) -> int {
    if now >= p.last_heartbeat_ms {
        now - p.last_heartbeat_ms
    } else {
        0
    }
}

/// A record made fresh from an item at time `now`: not running, heartbeat
/// and check stamped `now`, no restarts yet.
pub open spec fn fresh_record(item: MonitorItem, now: u64) -> MonitoredProcess {
    MonitoredProcess {
        item,
        process_id: None,
        last_heartbeat_ms: now,
        last_check_ms: now,
        restart_count: 0,
    }
}

impl Clone for MonitoredProcess {
    fn clone(&self) -> (r: Self)
        ensures
            r == *self,
    {
        MonitoredProcess {
            item: self.item.clone(),
            process_id: self.process_id,
            last_heartbeat_ms: self.last_heartbeat_ms,
            last_check_ms: self.last_check_ms,
            restart_count: self.restart_count,
        }
    }
}

impl MonitoredProcess {
    pub fn from_item(item: MonitorItem, now_ms: u64) -> (r: Self)
        ensures
            r == fresh_record(item, now_ms),
    {
        MonitoredProcess {
            item,
            process_id: None,
            last_heartbeat_ms: now_ms,
            last_check_ms: now_ms,
            restart_count: 0,
        }
    }

    pub fn is_heartbeat_timeout(&self, now_ms: u64) -> (r: bool)
        ensures
            r == heartbeat_timed_out(*self, now_ms),
    {
        now_ms > self.last_heartbeat_ms && now_ms - self.last_heartbeat_ms
            > self.item.heartbeat_timeout_ms
    }

    pub fn update_heartbeat(&mut self, now_ms: u64)
        ensures
            *final(self) == (MonitoredProcess { last_heartbeat_ms: now_ms, ..*old(self) }),
    {
        self.last_heartbeat_ms = now_ms;
    }
}

/// The persisted configuration: the monitored items in order.
pub struct Config {
    pub items: Vec<MonitorItem>,
}

impl Config {
    pub fn new() -> (r: Self)
        ensures
            r.items@.len() == 0,
    {
        Config { items: Vec::new() }
    }
}

impl Default for Config {
    fn default() -> (r: Self)
        ensures
            r.items@.len() == 0,
    {
        Config::new()
    }
}

impl Clone for Config {
    fn clone(&self) -> (r: Self)
        ensures
            r.items@ == self.items@,
    {
        let mut items: Vec<MonitorItem> = Vec::new();
        let mut i: usize = 0;
        while i < self.items.len()
            invariant
                i <= self.items@.len(),
                items@ == self.items@.subrange(0, i as int),
            decreases self.items@.len() - i,
        {
            items.push(self.items[i].clone());
            i = i + 1;
        }
        assert(items@ == self.items@);
        Config { items }
    }
}

/// The change a queued request asks of the engine. A change may combine
/// stopping with starting (apply new settings) or with removing (delete).
#[derive(Clone, Copy, Debug, PartialEq, Eq, Structural)]
pub enum ChangeType {
    Start,
    Stop,
    Remove,
    StopStart,
    StopRemove,
}

impl ChangeType {
    pub open spec fn starts(self) -> bool {
        self is Start || self is StopStart
    }

    pub open spec fn stops(self) -> bool {
        self is Stop || self is StopStart || self is StopRemove
    }

    pub open spec fn removes(self) -> bool {
        self is Remove || self is StopRemove
    }

    /// Whether the two changes share a step.
    pub fn has_flag(&self, other: ChangeType) -> (r: bool)
        ensures
            r == ((self.starts() && other.starts()) || (self.stops() && other.stops()) || (
            self.removes() && other.removes())),
    {
        let a = *self;
        let starts = (matches!(a, ChangeType::Start) || matches!(a, ChangeType::StopStart)) && (
        matches!(other, ChangeType::Start) || matches!(other, ChangeType::StopStart));
        let stops = (matches!(a, ChangeType::Stop) || matches!(a, ChangeType::StopStart)
            || matches!(a, ChangeType::StopRemove)) && (matches!(other, ChangeType::Stop)
            || matches!(other, ChangeType::StopStart) || matches!(other, ChangeType::StopRemove));
        let removes = (matches!(a, ChangeType::Remove) || matches!(a, ChangeType::StopRemove)) && (
        matches!(other, ChangeType::Remove) || matches!(other, ChangeType::StopRemove));
        starts || stops || removes
    }
}

/// A queued request to move one item into a new state.
pub struct ConfigChange {
    pub item: MonitorItem,
    pub change_type: ChangeType,
}

impl Clone for ConfigChange {
    fn clone(&self) -> (r: Self)
        ensures
            r == *self,
    {
        ConfigChange { item: self.item.clone(), change_type: self.change_type }
    }
}

/// A decoded control request. `request_type` names the operation; the other
/// fields carry its argument, where it has one.
pub struct PipeRequest {
    pub request_type: String,
    pub id: Option<String>,
    pub config: Option<MonitorItem>,
    pub item_id: Option<String>,
    pub timestamp: Option<i64>,
}

/// One item of a status report.
pub struct ItemStatus {
    pub id: String,
    pub name: String,
    pub exe_path: String,
    pub enabled: bool,
    pub process_id: Option<u32>,
    pub last_heartbeat_ms: u64,
    pub heartbeat_timeout_ms: u64,
    pub restart_count: u32,
    pub is_alive: bool,
    pub is_heartbeat_ok: bool,
}

/// A point-in-time snapshot of the engine.
pub struct StatusReport {
    pub service_running: bool,
    pub total_items: usize,
    pub items: Vec<ItemStatus>,
}

/// The payload a response may carry.
pub enum ResponseData {
    Items(Vec<MonitorItem>),
    Status(StatusReport),
}

/// The answer to one control request.
pub struct PipeResponse {
    pub success: bool,
    pub message: Option<String>,
    pub data: Option<ResponseData>,
}

impl PipeResponse {
    pub fn success(message: &str) -> (r: Self)
        ensures
            r.success,
            r.message matches Some(m) && m@ == message@,
            r.data.is_none(),
    {
        PipeResponse { success: true, message: Some(message.to_string()), data: None }
    }

    pub fn success_with_data(message: &str, data: ResponseData) -> (r: Self)
        ensures
            r.success,
            r.message matches Some(m) && m@ == message@,
            r.data == Some(data),
    {
        PipeResponse { success: true, message: Some(message.to_string()), data: Some(data) }
    }

    pub fn error(message: &str) -> (r: Self)
        ensures
            !r.success,
            r.message matches Some(m) && m@ == message@,
            r.data.is_none(),
    {
        PipeResponse { success: false, message: Some(message.to_string()), data: None }
    }
}

} // verus!
