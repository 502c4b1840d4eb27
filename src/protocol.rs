use crate::config::{enabled_copy, find_item_index, first_with_id, has_id, replace_first, without_id};
use crate::guardian::{alive_at, has_record, heartbeat_state, reports, EngineState, Guardian};
use crate::models::{ChangeType, ConfigChange, MonitorItem, PipeRequest, PipeResponse, ResponseData};
use crate::text::{lower_of, lowercase};
use vstd::prelude::*;
use vstd::string::StringExecFns;

verus! {

/// A configuration change that is accepted but not yet persisted. The
/// caller writes the configuration out and hands the result to
/// `Guardian::commit_save`, which queues `change` only on success.
pub struct PendingSave {
    pub change: ConfigChange,
    pub message: String,
}

/// What handling one request asks of the caller.
pub enum Dispatch {
    /// Send this response.
    Reply(PipeResponse),
    /// Persist the configuration, then commit.
    Persist(PendingSave),
    /// Probe the records' processes and answer with `Guardian::handle_status`.
    Status,
}

/// A plain reply with the given success flag and message.
pub open spec fn replied(r: Dispatch, ok: bool, msg: Seq<char>) -> bool {
    &&& r matches Dispatch::Reply(resp)
    &&& resp.success == ok
    &&& resp.data is None
    &&& resp.message matches Some(m) && m@ == msg
}

/// An accepted change waiting to be persisted.
pub open spec fn saving(r: Dispatch, c: ConfigChange, msg: Seq<char>) -> bool {
    &&& r matches Dispatch::Persist(p)
    &&& p.change == c
    &&& p.message@ == msg
}

/// Whether an item already uses `path`, compared without regard to case.
pub open spec fn path_taken(items: Seq<MonitorItem>, path: Seq<char>) -> bool {
    exists|k: int| 0 <= k < items.len() && lower_of(#[trigger] items[k].exe_path@) == lower_of(path)
}

pub open spec fn heartbeat_outcome(s: EngineState, req: PipeRequest, now: u64, t: EngineState, r: Dispatch) -> bool {
    match req.item_id {
        None => t == s && replied(r, false, "Missing item_id"@),
        Some(id) => if has_record(s.processes, id@) {
            t == heartbeat_state(s, id@, now) && replied(r, true, "Heartbeat updated"@)
        } else {
            t == s && replied(r, false, "Item not found"@)
        },
    }
}

/// `add` refuses an item whose id, or whose path without regard to case, is
/// taken, and then changes nothing; otherwise the item joins the
/// configuration and, once persisted, is queued to start.
pub open spec fn add_outcome(s: EngineState, req: PipeRequest, t: EngineState, r: Dispatch) -> bool {
    match req.config {
        None => t == s && replied(r, false, "Missing config"@),
        Some(item) => if has_id(s.items, item.id@) {
            t == s && replied(r, false, "Item with this ID already exists"@)
        } else if path_taken(s.items, item.exe_path@) {
            t == s && replied(r, false, "Executable path already monitored"@)
        } else {
            &&& t == (EngineState { items: s.items.push(item), ..s })
            &&& saving(r, ConfigChange { item, change_type: ChangeType::Start }, "Item added"@)
        },
    }
}

/// `update` replaces a known item and, once persisted, queues it to stop
/// and start again under the new settings.
pub open spec fn update_outcome(s: EngineState, req: PipeRequest, t: EngineState, r: Dispatch) -> bool {
    match req.config {
        None => t == s && replied(r, false, "Missing config"@),
        Some(item) => if has_id(s.items, item.id@) {
            &&& t == (EngineState { items: replace_first(s.items, item), ..s })
            &&& saving(r, ConfigChange { item, change_type: ChangeType::StopStart }, "Item updated"@)
        } else {
            t == s && replied(r, false, "Item not found"@)
        },
    }
}

/// `remove` drops a known item from the configuration and, once persisted,
/// queues it to stop and leave the engine.
pub open spec fn remove_outcome(s: EngineState, req: PipeRequest, t: EngineState, r: Dispatch) -> bool {
    match req.id {
        None => t == s && replied(r, false, "Missing id"@),
        Some(id) => if has_id(s.items, id@) {
            &&& t == (EngineState { items: without_id(s.items, id@), ..s })
            &&& saving(
                r,
                ConfigChange { item: s.items[first_with_id(s.items, id@)], change_type: ChangeType::StopRemove },
                "Item removed"@,
            )
        } else {
            t == s && replied(r, false, "Item not found"@)
        },
    }
}

/// `stop` queues a known item to stop.
pub open spec fn stop_outcome(s: EngineState, req: PipeRequest, t: EngineState, r: Dispatch) -> bool {
    match req.id {
        None => t == s && replied(r, false, "Missing id"@),
        Some(id) => if has_id(s.items, id@) {
            &&& t == (EngineState {
                pending: s.pending.push(
                    ConfigChange { item: s.items[first_with_id(s.items, id@)], change_type: ChangeType::Stop },
                ),
                ..s
            })
            &&& replied(r, true, "Item stopped"@)
        } else {
            t == s && replied(r, false, "Item not found"@)
        },
    }
}

/// `start` queues a known item, enabled, to start.
pub open spec fn start_outcome(s: EngineState, req: PipeRequest, t: EngineState, r: Dispatch) -> bool {
    match req.id {
        None => t == s && replied(r, false, "Missing id"@),
        Some(id) => if has_id(s.items, id@) {
            &&& t == (EngineState {
                pending: s.pending.push(
                    ConfigChange {
                        item: enabled_copy(s.items[first_with_id(s.items, id@)]),
                        change_type: ChangeType::Start,
                    },
                ),
                ..s
            })
            &&& replied(r, true, "Item started"@)
        } else {
            t == s && replied(r, false, "Item not found"@)
        },
    }
}

/// The reply to `list`: the configured items.
pub open spec fn lists(r: PipeResponse, items: Seq<MonitorItem>) -> bool {
    &&& r.success
    &&& r.message matches Some(m) && m@ == "Items list"@
    &&& r.data matches Some(ResponseData::Items(v)) && v@ == items
}

/// What handling a request does, by its type.
pub open spec fn request_outcome(s: EngineState, req: PipeRequest, now: u64, t: EngineState, r: Dispatch) -> bool {
    let ty = req.request_type@;
    if ty == "heartbeat"@ {
        heartbeat_outcome(s, req, now, t, r)
    } else if ty == "add"@ {
        add_outcome(s, req, t, r)
    } else if ty == "update"@ {
        update_outcome(s, req, t, r)
    } else if ty == "remove"@ {
        remove_outcome(s, req, t, r)
    } else if ty == "stop"@ {
        stop_outcome(s, req, t, r)
    } else if ty == "start"@ {
        start_outcome(s, req, t, r)
    } else if ty == "list"@ {
        t == s && (r matches Dispatch::Reply(resp) && lists(resp, s.items))
    } else if ty == "status"@ {
        t == s && r is Status
    } else {
        &&& t == s
        &&& r matches Dispatch::Reply(resp)
        &&& !resp.success
        &&& resp.data is None
        &&& resp.message matches Some(m) && m@ == "Unknown request type: "@ + ty
    }
}

/// Whether an item already uses `path`, compared without regard to case.
fn path_in_use(items: &Vec<MonitorItem>, path: &str) -> (r: bool)
    ensures
        r == path_taken(items@, path@),
{
    let target = lowercase(path);
    let mut i: usize = 0;
    while i < items.len()
        invariant
            i <= items@.len(),
            target@ == lower_of(path@),
            forall|j: int| 0 <= j < i ==> lower_of(items@[j].exe_path@) != lower_of(path@),
        decreases items@.len() - i,
    {
        if lowercase(items[i].exe_path.as_str()) == target {
            return true;
        }
        i = i + 1;
    }
    false
}

fn reply_error(message: &str) -> (r: Dispatch)
    ensures
        replied(r, false, message@),
{
    Dispatch::Reply(PipeResponse::error(message))
}

fn reply_success(message: &str) -> (r: Dispatch)
    ensures
        replied(r, true, message@),
{
    Dispatch::Reply(PipeResponse::success(message))
}

impl Guardian {
    /// A heartbeat for `request.item_id` at time `now_ms`; see `heartbeat_outcome`.
    pub fn handle_heartbeat(&mut self, request: &PipeRequest, now_ms: u64) -> (r: Dispatch)
        requires
            old(self).wf(),
        ensures
            final(self).wf(),
            heartbeat_outcome(old(self)@, *request, now_ms, final(self)@, r),
    {
        match &request.item_id {
            None => reply_error("Missing item_id"),
            Some(id) => {
                if self.update_heartbeat(id.as_str(), now_ms) {
                    reply_success("Heartbeat updated")
                } else {
                    reply_error("Item not found")
                }
            },
        }
    }

    /// `add`: refused, with nothing changed, where the id or the path without
    /// regard to case is taken; see `add_outcome`.
    pub fn handle_add(&mut self, request: &PipeRequest) -> (r: Dispatch)
        requires
            old(self).wf(),
        ensures
            final(self).wf(),
            add_outcome(old(self)@, *request, final(self)@, r),
    {
        match &request.config {
            None => reply_error("Missing config"),
            Some(item) => {
                if find_item_index(&self.get_config().items, item.id.as_str()).is_some() {
                    return reply_error("Item with this ID already exists");
                }
                if path_in_use(&self.get_config().items, item.exe_path.as_str()) {
                    return reply_error("Executable path already monitored");
                }
                self.push_item(item.clone());
                let change = ConfigChange { item: item.clone(), change_type: ChangeType::Start };
                Dispatch::Persist(PendingSave { change, message: "Item added".to_string() })
            },
        }
    }

    /// `update`: replaces a known item; see `update_outcome`.
    pub fn handle_update(&mut self, request: &PipeRequest) -> (r: Dispatch)
        requires
            old(self).wf(),
        ensures
            final(self).wf(),
            update_outcome(old(self)@, *request, final(self)@, r),
    {
        match &request.config {
            None => reply_error("Missing config"),
            Some(item) => {
                if self.replace_item(item.clone()) {
                    let change = ConfigChange { item: item.clone(), change_type: ChangeType::StopStart };
                    Dispatch::Persist(PendingSave { change, message: "Item updated".to_string() })
                } else {
                    reply_error("Item not found")
                }
            },
        }
    }

    /// `remove`: fails, with nothing changed, for an unknown id; otherwise drops
    /// the item and hands back its stop-and-remove; see `remove_outcome`.
    pub fn handle_remove(&mut self, request: &PipeRequest) -> (r: Dispatch)
        requires
            old(self).wf(),
        ensures
            final(self).wf(),
            remove_outcome(old(self)@, *request, final(self)@, r),
    {
        match &request.id {
            None => reply_error("Missing id"),
            Some(id) => match find_item_index(&self.get_config().items, id.as_str()) {
                None => reply_error("Item not found"),
                Some(k) => {
                    let item = self.get_config().items[k].clone();
                    self.drop_items(id.as_str());
                    let change = ConfigChange { item, change_type: ChangeType::StopRemove };
                    Dispatch::Persist(PendingSave { change, message: "Item removed".to_string() })
                },
            },
        }
    }

    /// `stop`: queues a known item to stop; see `stop_outcome`.
    pub fn handle_stop(&mut self, request: &PipeRequest) -> (r: Dispatch)
        requires
            old(self).wf(),
        ensures
            final(self).wf(),
            stop_outcome(old(self)@, *request, final(self)@, r),
    {
        match &request.id {
            None => reply_error("Missing id"),
            Some(id) => match find_item_index(&self.get_config().items, id.as_str()) {
                None => reply_error("Item not found"),
                Some(k) => {
                    let item = self.get_config().items[k].clone();
                    self.add_change(ConfigChange { item, change_type: ChangeType::Stop });
                    reply_success("Item stopped")
                },
            },
        }
    }

    /// `start`: queues a known item, enabled, to start; see `start_outcome`.
    pub fn handle_start(&mut self, request: &PipeRequest) -> (r: Dispatch)
        requires
            old(self).wf(),
        ensures
            final(self).wf(),
            start_outcome(old(self)@, *request, final(self)@, r),
    {
        match &request.id {
            None => reply_error("Missing id"),
            Some(id) => match find_item_index(&self.get_config().items, id.as_str()) {
                None => reply_error("Item not found"),
                Some(k) => {
                    let mut item = self.get_config().items[k].clone();
                    item.enabled = true;
                    self.add_change(ConfigChange { item, change_type: ChangeType::Start });
                    reply_success("Item started")
                },
            },
        }
    }

    /// The reply to `list`: the configured items.
    pub fn handle_list(&self) -> (r: PipeResponse)
        ensures
            lists(r, self@.items),
    {
        let items = self.get_config().items.clone();
        assert(items@ =~= self@.items);
        PipeResponse::success_with_data("Items list", ResponseData::Items(items))
    }

    /// The reply to `status` at time `now_ms`, given a fresh liveness probe
    /// of each record's process (`alive[i]` for record `i`).
    pub fn handle_status(&self, now_ms: u64, alive: &Vec<bool>) -> (r: PipeResponse)
        ensures
            r.success,
            r.message matches Some(m) && m@ == "Service status"@,
            r.data matches Some(ResponseData::Status(st)) && {
                &&& st.service_running
                &&& st.total_items == self@.processes.len()
                &&& st.items@.len() == self@.processes.len()
                &&& forall|j: int| 0 <= j < st.items@.len() ==> reports(st.items@[j], self@.processes[j], alive_at(alive@, j), now_ms)
            },
    {
        let status = self.get_status(now_ms, alive);
        PipeResponse::success_with_data("Service status", ResponseData::Status(status))
    }

    /// Handles one decoded request at time `now_ms`; see `request_outcome`.
    /// Mutating requests change the configuration here and hand back the
    /// change to queue once the configuration is persisted.
    pub fn handle_request(&mut self, request: &PipeRequest, now_ms: u64) -> (r: Dispatch)
        requires
            old(self).wf(),
        ensures
            final(self).wf(),
            request_outcome(old(self)@, *request, now_ms, final(self)@, r),
    {
        let ty = &request.request_type;
        if *ty == "heartbeat".to_string() {
            self.handle_heartbeat(request, now_ms)
        } else if *ty == "add".to_string() {
            self.handle_add(request)
        } else if *ty == "update".to_string() {
            self.handle_update(request)
        } else if *ty == "remove".to_string() {
            self.handle_remove(request)
        } else if *ty == "stop".to_string() {
            self.handle_stop(request)
        } else if *ty == "start".to_string() {
            self.handle_start(request)
        } else if *ty == "list".to_string() {
            Dispatch::Reply(self.handle_list())
        } else if *ty == "status".to_string() {
            Dispatch::Status
        } else {
            let message = "Unknown request type: ".to_string().concat(ty.as_str());
            Dispatch::Reply(PipeResponse::error(message.as_str()))
        }
    }

    /// Finishes an accepted change once the configuration was written out:
    /// on success the change is queued for the next cycle; on failure nothing
    /// is queued and the caller is told why.
    pub fn commit_save(&mut self, save: PendingSave, saved: Result<(), String>) -> (r: PipeResponse)
        requires
            old(self).wf(),
        ensures
            final(self).wf(),
            match saved {
                Ok(()) => {
                    &&& final(self)@ == (EngineState { pending: old(self)@.pending.push(save.change), ..old(self)@ })
                    &&& r.success && r.data is None
                    &&& r.message matches Some(m) && m@ == save.message@
                },
                Err(e) => {
                    &&& final(self)@ == old(self)@
                    &&& !r.success && r.data is None
                    &&& r.message matches Some(m) && m@ == "Failed to save config: "@ + e@
                },
            },
    {
        match saved {
            Ok(()) => {
                let message = save.message;
                self.add_change(save.change);
                PipeResponse::success(message.as_str())
            },
            Err(e) => {
                let message = "Failed to save config: ".to_string().concat(e.as_str());
                PipeResponse::error(message.as_str())
            },
        }
    }
}

} // verus!
