use crate::config::{enabled_copy, find_item_index, first_with_id, has_id, replace_first, without_id};
use crate::models::{fresh_record, heartbeat_age, heartbeat_timed_out, ChangeType, Config, ConfigChange, ItemStatus, MonitorItem, MonitoredProcess, StatusReport};
use vstd::prelude::*;

verus! {

/// The supervision engine: the runtime records, the authoritative
/// configuration and the queue of changes waiting for the next cycle.
pub struct Guardian {
    processes: Vec<MonitoredProcess>,
    config: Config,
    pending_changes: Vec<ConfigChange>,
}

/// What the engine holds, as values.
pub struct EngineState {
    pub processes: Seq<MonitoredProcess>,
    pub items: Seq<MonitorItem>,
    pub pending: Seq<ConfigChange>,
}

impl View for Guardian {
    type V = EngineState;

    closed spec fn view(&self) -> EngineState {
        EngineState {
            processes: self.processes@,
            items: self.config.items@,
            pending: self.pending_changes@,
        }
    }
}

/// Whether `k` is the position of the runtime record of item `id`, the first one.
pub open spec fn is_record_of(ps: Seq<MonitoredProcess>, id: Seq<char>, k: int) -> bool {
    &&& 0 <= k < ps.len()
    &&& ps[k].item.id@ == id
    &&& forall|j: int| 0 <= j < k ==> ps[j].item.id@ != id
}

pub open spec fn has_record(ps: Seq<MonitoredProcess>, id: Seq<char>) -> bool {
    exists|k: int| 0 <= k < ps.len() && ps[k].item.id@ == id
}

/// The position of the runtime record of item `id`, or -1.
pub open spec fn record_pos(ps: Seq<MonitoredProcess>, id: Seq<char>) -> int {
    if exists|k: int| is_record_of(ps, id, k) {
        choose|k: int| is_record_of(ps, id, k)
    } else {
        -1
    }
}

/// No two runtime records belong to the same item id.
pub open spec fn records_unique(ps: Seq<MonitoredProcess>) -> bool {
    forall|i: int, j: int| 0 <= i < j < ps.len() ==> ps[i].item.id@ != ps[j].item.id@
}

/// The records with `rec` in place of the record of its id, or appended.
pub open spec fn upsert_record(ps: Seq<MonitoredProcess>, rec: MonitoredProcess) -> Seq<MonitoredProcess> {
    let k = record_pos(ps, rec.item.id@);
    if k >= 0 {
        ps.update(k, rec)
    } else {
        ps.push(rec)
    }
}

/// The records without the one of id `id`.
pub open spec fn without_record(ps: Seq<MonitoredProcess>, id: Seq<char>) -> Seq<MonitoredProcess> {
    ps.filter(|p: MonitoredProcess| p.item.id@ != id)
}

/// The runtime records made at startup at time `now`, one per item, a later
/// item replacing an earlier one of the same id.
pub open spec fn startup_records(items: Seq<MonitorItem>, now: u64) -> Seq<MonitoredProcess>
    decreases items.len(),
{
    if items.len() == 0 {
        Seq::empty()
    } else {
        upsert_record(startup_records(items.drop_last(), now), fresh_record(items.last(), now))
    }
}

/// The engine as constructed from a configuration at time `now`: every item
/// enabled, one fresh record per item, nothing queued.
pub open spec fn startup_state(items: Seq<MonitorItem>, now: u64) -> EngineState {
    let enabled = items.map_values(|it: MonitorItem| enabled_copy(it));
    EngineState { processes: startup_records(enabled, now), items: enabled, pending: Seq::empty() }
}

/// The state after a heartbeat for item `id` at time `now`.
pub open spec fn heartbeat_state(s: EngineState, id: Seq<char>, now: u64) -> EngineState {
    let k = record_pos(s.processes, id);
    if k >= 0 {
        EngineState {
            processes: s.processes.update(k, MonitoredProcess { last_heartbeat_ms: now, ..s.processes[k] }),
            ..s
        }
    } else {
        s
    }
}

pub proof fn lemma_record_pos(ps: Seq<MonitoredProcess>, id: Seq<char>, k: int)
    requires
        is_record_of(ps, id, k),
    ensures
        record_pos(ps, id) == k,
{
    let c = choose|c: int| is_record_of(ps, id, c);
    assert(is_record_of(ps, id, c));
    if c < k {
        assert(ps[c].item.id@ != id);
    } else if k < c {
        assert(ps[k].item.id@ != id);
    }
}

pub proof fn lemma_no_record(ps: Seq<MonitoredProcess>, id: Seq<char>)
    requires
        !has_record(ps, id),
    ensures
        record_pos(ps, id) == -1,
{
    if exists|k: int| is_record_of(ps, id, k) {
        let c = choose|c: int| is_record_of(ps, id, c);
        assert(ps[c].item.id@ == id);
    }
}

/// Replacing or appending a record keeps the records unique.
pub proof fn lemma_upsert_unique(ps: Seq<MonitoredProcess>, rec: MonitoredProcess)
    requires
        records_unique(ps),
    ensures
        records_unique(upsert_record(ps, rec)),
        has_record(upsert_record(ps, rec), rec.item.id@),
{
    let k = record_pos(ps, rec.item.id@);
    if exists|j: int| is_record_of(ps, rec.item.id@, j) {
        let j = choose|j: int| is_record_of(ps, rec.item.id@, j);
        lemma_record_pos(ps, rec.item.id@, j);
        assert(upsert_record(ps, rec)[j] == rec);
    } else {
        if has_record(ps, rec.item.id@) {
            let j = choose|j: int| 0 <= j < ps.len() && ps[j].item.id@ == rec.item.id@;
            assert(is_record_of(ps, rec.item.id@, j));
        }
        lemma_no_record(ps, rec.item.id@);
        let r = ps.push(rec);
        assert(r[ps.len() as int] == rec);
        assert forall|a: int, b: int| 0 <= a < b < r.len() implies r[a].item.id@ != r[b].item.id@ by {
            if b == ps.len() {
                assert(r[a] == ps[a]);
            }
        }
    }
}

/// The position of the record of item `id`.
fn find_record(ps: &Vec<MonitoredProcess>, id: &str) -> (r: Option<usize>)
    ensures
        match r {
            Some(k) => is_record_of(ps@, id@, k as int) && record_pos(ps@, id@) == k,
            None => !has_record(ps@, id@) && record_pos(ps@, id@) == -1,
        },
{
    let key = id.to_string();
    let mut i: usize = 0;
    while i < ps.len()
        invariant
            i <= ps@.len(),
            key@ == id@,
            forall|j: int| 0 <= j < i ==> ps@[j].item.id@ != id@,
        decreases ps@.len() - i,
    {
        if ps[i].item.id == key {
            proof {
                lemma_record_pos(ps@, id@, i as int);
            }
            return Some(i);
        }
        i = i + 1;
    }
    proof {
        lemma_no_record(ps@, id@);
    }
    None
}

/// Puts `rec` in place of the record of its id, or appends it.
fn upsert(ps: &mut Vec<MonitoredProcess>, rec: MonitoredProcess)
    ensures
        final(ps)@ == upsert_record(old(ps)@, rec),
{
    match find_record(ps, rec.item.id.as_str()) {
        Some(k) => ps.set(k, rec),
        None => ps.push(rec),
    }
}

/// A restart the check cycle asks for: kill `kill_pid` if it still runs, then
/// launch `item` under its current settings.
pub struct RestartOrder {
    pub item: MonitorItem,
    pub kill_pid: Option<u32>,
}

/// The fresh liveness probe of record `i`; a missing probe counts as dead.
pub open spec fn alive_at(alive: Seq<bool>, i: int) -> bool {
    0 <= i < alive.len() && alive[i]
}

/// A record is restarted when it is enabled and either its process is not
/// alive or its heartbeat timed out.
pub open spec fn needs_restart(p: MonitoredProcess, alive: bool, now: u64) -> bool {
    p.item.enabled && (!(alive && p.process_id is Some) || heartbeat_timed_out(p, now))
}

/// The order for a record: a process that is still alive is killed first.
pub open spec fn restart_order(p: MonitoredProcess, alive: bool) -> RestartOrder {
    RestartOrder { item: p.item, kill_pid: if alive { p.process_id } else { None } }
}

/// The restarts the cycle asks for among the first `n` records, in order.
pub open spec fn restart_plan(ps: Seq<MonitoredProcess>, alive: Seq<bool>, now: u64, n: int) -> Seq<RestartOrder>
    decreases n,
{
    if n <= 0 {
        Seq::empty()
    } else {
        let prev = restart_plan(ps, alive, now, n - 1);
        if needs_restart(ps[n - 1], alive_at(alive, n - 1), now) {
            prev.push(restart_order(ps[n - 1], alive_at(alive, n - 1)))
        } else {
            prev
        }
    }
}

/// A record as the cycle leaves it: enabled ones are stamped as checked.
pub open spec fn checked_record(p: MonitoredProcess, now: u64) -> MonitoredProcess {
    if p.item.enabled {
        MonitoredProcess { last_check_ms: now, ..p }
    } else {
        p
    }
}

/// The records after a successful launch of the record of `id` as process
/// `pid` at time `now`; `counted` says whether it counts as a restart.
pub open spec fn launched_records(ps: Seq<MonitoredProcess>, id: Seq<char>, pid: u32, now: u64, counted: bool) -> Seq<MonitoredProcess> {
    let k = record_pos(ps, id);
    if k >= 0 {
        ps.update(k, MonitoredProcess {
            process_id: Some(pid),
            last_heartbeat_ms: now,
            restart_count: if counted && ps[k].restart_count < u32::MAX { (ps[k].restart_count + 1) as u32 } else { ps[k].restart_count },
            ..ps[k]
        })
    } else {
        ps
    }
}

/// The items to launch at startup: those of the enabled records, in order.
pub open spec fn startup_launches(ps: Seq<MonitoredProcess>) -> Seq<MonitorItem> {
    ps.filter(|p: MonitoredProcess| p.item.enabled).map_values(|p: MonitoredProcess| p.item)
}

/// The records with the one of `id` disabled.
pub open spec fn disable_record(ps: Seq<MonitoredProcess>, id: Seq<char>) -> Seq<MonitoredProcess> {
    let k = record_pos(ps, id);
    if k >= 0 {
        ps.update(k, MonitoredProcess { item: MonitorItem { enabled: false, ..ps[k].item }, ..ps[k] })
    } else {
        ps
    }
}

/// The items with the first one of id `id` given the enabled flag `flag`.
pub open spec fn set_item_enabled(items: Seq<MonitorItem>, id: Seq<char>, flag: bool) -> Seq<MonitorItem> {
    let k = first_with_id(items, id);
    if k >= 0 {
        items.update(k, MonitorItem { enabled: flag, ..items[k] })
    } else {
        items
    }
}

/// The record of a started item that runs as process `pid` since `now`:
/// fresh, and enabled whatever the item said.
pub open spec fn started_record(item: MonitorItem, pid: u32, now: u64) -> MonitoredProcess {
    MonitoredProcess { process_id: Some(pid), ..fresh_record(enabled_copy(item), now) }
}

/// Stopping: the record and the first configured item of the id are disabled.
pub open spec fn stop_step(s: EngineState, c: ConfigChange) -> EngineState {
    if c.change_type.stops() {
        EngineState {
            processes: disable_record(s.processes, c.item.id@),
            items: set_item_enabled(s.items, c.item.id@, false),
            ..s
        }
    } else {
        s
    }
}

/// Removing: the record and every configured item of the id are dropped.
pub open spec fn remove_step(s: EngineState, c: ConfigChange) -> EngineState {
    if c.change_type.removes() {
        EngineState {
            processes: without_record(s.processes, c.item.id@),
            items: without_id(s.items, c.item.id@),
            ..s
        }
    } else {
        s
    }
}

/// Starting, where the launch gave a process: a fresh enabled record
/// replaces or joins the records, and the item, enabled, replaces the first
/// configured item of its id or is appended. A failed launch changes nothing.
pub open spec fn start_step(s: EngineState, c: ConfigChange, launched: Option<u32>, now: u64) -> EngineState {
    if c.change_type.starts() && launched is Some {
        EngineState {
            processes: upsert_record(s.processes, started_record(c.item, launched->0, now)),
            items: if has_id(s.items, c.item.id@) {
                replace_first(s.items, enabled_copy(c.item))
            } else {
                s.items.push(enabled_copy(c.item))
            },
            ..s
        }
    } else {
        s
    }
}

/// The state after applying a change: stop, then remove, then start.
pub open spec fn applied_state(s: EngineState, c: ConfigChange, launched: Option<u32>, now: u64) -> EngineState {
    start_step(remove_step(stop_step(s, c), c), c, launched, now)
}

/// Whether applying the change alters the configuration to be persisted.
pub open spec fn change_persists(s: EngineState, c: ConfigChange, launched: Option<u32>) -> bool {
    (c.change_type.stops() && has_id(s.items, c.item.id@)) || c.change_type.removes() || (
    c.change_type.starts() && launched is Some)
}

/// The process a change stops, where its record has one.
pub open spec fn stop_target_of(s: EngineState, c: ConfigChange) -> Option<u32> {
    let k = record_pos(s.processes, c.item.id@);
    if c.change_type.stops() && k >= 0 {
        s.processes[k].process_id
    } else {
        None
    }
}

/// The records without those of `id`.
fn retain_other_records(ps: &Vec<MonitoredProcess>, id: &str) -> (r: Vec<MonitoredProcess>)
    requires
        records_unique(ps@),
    ensures
        r@ == without_record(ps@, id@),
        records_unique(r@),
{
    let key = id.to_string();
    let mut kept: Vec<MonitoredProcess> = Vec::new();
    let mut i: usize = 0;
    while i < ps.len()
        invariant
            i <= ps@.len(),
            key@ == id@,
            records_unique(ps@),
            kept@ == without_record(ps@.subrange(0, i as int), id@),
            records_unique(kept@),
            forall|a: int| 0 <= a < kept@.len() ==> exists|j: int| 0 <= j < i && #[trigger] kept@[a].item.id@ == ps@[j].item.id@,
        decreases ps@.len() - i,
    {
        proof {
            assert(ps@.subrange(0, i + 1).drop_last() =~= ps@.subrange(0, i as int));
            reveal(Seq::filter);
        }
        if ps[i].item.id != key {
            let ghost before = kept@;
            kept.push(ps[i].clone());
            proof {
                assert forall|a: int, b: int| 0 <= a < b < kept@.len() implies kept@[a].item.id@ != kept@[b].item.id@ by {
                    if b == before.len() {
                        let j = choose|j: int| 0 <= j < i && #[trigger] before[a].item.id@ == ps@[j].item.id@;
                        assert(ps@[j].item.id@ != ps@[i as int].item.id@);
                    } else {
                        assert(before[a] == kept@[a]);
                    }
                }
                assert forall|a: int| 0 <= a < kept@.len() implies exists|j: int| 0 <= j < i + 1 && #[trigger] kept@[a].item.id@ == ps@[j].item.id@ by {
                    if a == before.len() {
                        assert(kept@[a].item.id@ == ps@[i as int].item.id@);
                    } else {
                        assert(kept@[a] == before[a]);
                        let j = choose|j: int| 0 <= j < i && #[trigger] before[a].item.id@ == ps@[j].item.id@;
                        assert(kept@[a].item.id@ == ps@[j].item.id@);
                    }
                }
            }
        }
        i = i + 1;
    }
    assert(ps@.subrange(0, ps@.len() as int) =~= ps@);
    kept
}

/// Gives the first item of id `id` the enabled flag `flag`.
fn set_enabled_in(items: &mut Vec<MonitorItem>, id: &str, flag: bool) -> (found: bool)
    ensures
        found == has_id(old(items)@, id@),
        final(items)@ == set_item_enabled(old(items)@, id@, flag),
{
    match find_item_index(items, id) {
        Some(k) => {
            let mut it = items[k].clone();
            it.enabled = flag;
            items.set(k, it);
            true
        },
        None => false,
    }
}

/// Whether `st` reports record `p` at time `now`, given a fresh liveness probe.
pub open spec fn reports(st: ItemStatus, p: MonitoredProcess, alive: bool, now: u64) -> bool {
    &&& st.id == p.item.id
    &&& st.name == p.item.name
    &&& st.exe_path == p.item.exe_path
    &&& st.enabled == p.item.enabled
    &&& st.process_id == p.process_id
    &&& st.last_heartbeat_ms == heartbeat_age(p, now)
    &&& st.heartbeat_timeout_ms == p.item.heartbeat_timeout_ms
    &&& st.restart_count == p.restart_count
    &&& st.is_alive == (alive && p.process_id is Some)
    &&& st.is_heartbeat_ok == !heartbeat_timed_out(p, now)
}

impl Guardian {
    pub open spec fn wf(&self) -> bool {
        records_unique(self@.processes)
    }

    /// Builds the engine from a loaded configuration at time `now_ms`:
    /// every item is enabled and gets a fresh runtime record.
    pub fn new(config: Config, now_ms: u64) -> (r: Self)
        ensures
            r.wf(),
            r@ == startup_state(config.items@, now_ms),
    {
        let mut config = config;
        crate::config::force_enable_all(&mut config);
        let ghost enabled = config.items@;
        let mut processes: Vec<MonitoredProcess> = Vec::new();
        let mut i: usize = 0;
        while i < config.items.len()
            invariant
                config.items@ == enabled,
                i <= enabled.len(),
                processes@ == startup_records(enabled.subrange(0, i as int), now_ms),
                records_unique(processes@),
            decreases enabled.len() - i,
        {
            proof {
                assert(enabled.subrange(0, i + 1).drop_last() =~= enabled.subrange(0, i as int));
                lemma_upsert_unique(processes@, fresh_record(enabled[i as int], now_ms));
            }
            let rec = MonitoredProcess::from_item(config.items[i].clone(), now_ms);
            upsert(&mut processes, rec);
            i = i + 1;
        }
        assert(enabled.subrange(0, enabled.len() as int) =~= enabled);
        let r = Guardian { processes, config, pending_changes: Vec::new() };
        assert(r@.pending =~= Seq::<ConfigChange>::empty());
        r
    }

    pub fn get_processes(&self) -> (r: &Vec<MonitoredProcess>)
        ensures
            r@ == self@.processes,
    {
        &self.processes
    }

    pub fn get_config(&self) -> (r: &Config)
        ensures
            r.items@ == self@.items,
    {
        &self.config
    }

    pub fn get_pending_changes(&self) -> (r: &Vec<ConfigChange>)
        ensures
            r@ == self@.pending,
    {
        &self.pending_changes
    }

    /// Queues a change for the next cycle.
    pub fn add_change(&mut self, change: ConfigChange)
        requires
            old(self).wf(),
        ensures
            final(self).wf(),
            final(self)@ == (EngineState { pending: old(self)@.pending.push(change), ..old(self)@ }),
    {
        self.pending_changes.push(change);
    }

    /// Records a heartbeat of item `item_id` at time `now_ms`; false, with
    /// nothing changed, where the engine has no record of it.
    pub fn update_heartbeat(&mut self, item_id: &str, now_ms: u64) -> (r: bool)
        requires
            old(self).wf(),
        ensures
            final(self).wf(),
            r == has_record(old(self)@.processes, item_id@),
            final(self)@ == heartbeat_state(old(self)@, item_id@, now_ms),
    {
        match find_record(&self.processes, item_id) {
            Some(k) => {
                let mut rec = self.processes[k].clone();
                rec.update_heartbeat(now_ms);
                self.processes.set(k, rec);
                proof {
                    assert forall|a: int, b: int| 0 <= a < b < self@.processes.len() implies
                        self@.processes[a].item.id@ != self@.processes[b].item.id@ by {
                        assert(old(self)@.processes[a].item.id@ != old(self)@.processes[b].item.id@);
                    }
                }
                true
            },
            None => false,
        }
    }

    /// The items to launch when the engine starts: those of the enabled
    /// records. Each successful launch is then told to `record_start`.
    pub fn start_all_processes(&self) -> (r: Vec<MonitorItem>)
        ensures
            r@ == startup_launches(self@.processes),
    {
        let ghost ps = self@.processes;
        let mut out: Vec<MonitorItem> = Vec::new();
        let mut i: usize = 0;
        while i < self.processes.len()
            invariant
                ps == self@.processes,
                i <= ps.len(),
                out@ == startup_launches(ps.subrange(0, i as int)),
            decreases ps.len() - i,
        {
            proof {
                assert(ps.subrange(0, i + 1).drop_last() =~= ps.subrange(0, i as int));
                reveal(Seq::filter);
                let pred = |p: MonitoredProcess| p.item.enabled;
                let f = |p: MonitoredProcess| p.item;
                assert(ps.subrange(0, i + 1).filter(pred).map_values(f) =~= if ps[i as int].item.enabled {
                    ps.subrange(0, i as int).filter(pred).map_values(f).push(ps[i as int].item)
                } else {
                    ps.subrange(0, i as int).filter(pred).map_values(f)
                });
            }
            if self.processes[i].item.enabled {
                out.push(self.processes[i].item.clone());
            }
            i = i + 1;
        }
        assert(ps.subrange(0, ps.len() as int) =~= ps);
        out
    }

    /// One check cycle's decisions at time `now_ms`, given a fresh liveness
    /// probe of each record's process (`alive[i]` for record `i`). Stamps the
    /// enabled records as checked and returns, in record order, a restart for
    /// each enabled record whose process is not alive or whose heartbeat
    /// timed out. Disabled records are left alone.
    pub fn check_processes(&mut self, now_ms: u64, alive: &Vec<bool>) -> (plan: Vec<RestartOrder>)
        requires
            old(self).wf(),
        ensures
            final(self).wf(),
            plan@ == restart_plan(old(self)@.processes, alive@, now_ms, old(self)@.processes.len() as int),
            final(self)@ == (EngineState {
                processes: old(self)@.processes.map_values(|p: MonitoredProcess| checked_record(p, now_ms)),
                ..old(self)@
            }),
    {
        let ghost ps = self@.processes;
        let mut plan: Vec<RestartOrder> = Vec::new();
        let mut i: usize = 0;
        while i < self.processes.len()
            invariant
                self@.items == old(self)@.items,
                self@.pending == old(self)@.pending,
                ps == old(self)@.processes,
                self@.processes.len() == ps.len(),
                i <= ps.len(),
                forall|j: int| 0 <= j < i ==> self@.processes[j] == checked_record(ps[j], now_ms),
                forall|j: int| i <= j < ps.len() ==> self@.processes[j] == ps[j],
                plan@ == restart_plan(ps, alive@, now_ms, i as int),
            decreases ps.len() - i,
        {
            let enabled = self.processes[i].item.enabled;
            if enabled {
                let is_alive = i < alive.len() && alive[i] && self.processes[i].process_id.is_some();
                let probe = i < alive.len() && alive[i];
                if !is_alive || self.processes[i].is_heartbeat_timeout(now_ms) {
                    let kill_pid = if probe { self.processes[i].process_id } else { None };
                    plan.push(RestartOrder { item: self.processes[i].item.clone(), kill_pid });
                }
                let mut rec = self.processes[i].clone();
                rec.last_check_ms = now_ms;
                self.processes.set(i, rec);
            }
            i = i + 1;
        }
        proof {
            assert(self@.processes =~= ps.map_values(|p: MonitoredProcess| checked_record(p, now_ms)));
            assert forall|a: int, b: int| 0 <= a < b < self@.processes.len() implies
                self@.processes[a].item.id@ != self@.processes[b].item.id@ by {
                assert(ps[a].item.id@ != ps[b].item.id@);
            }
        }
        plan
    }

    fn record_launch(&mut self, item_id: &str, pid: u32, now_ms: u64, counted: bool) -> (r: bool)
        requires
            old(self).wf(),
        ensures
            final(self).wf(),
            r == has_record(old(self)@.processes, item_id@),
            final(self)@ == (EngineState {
                processes: launched_records(old(self)@.processes, item_id@, pid, now_ms, counted),
                ..old(self)@
            }),
    {
        match find_record(&self.processes, item_id) {
            Some(k) => {
                let mut rec = self.processes[k].clone();
                rec.process_id = Some(pid);
                rec.last_heartbeat_ms = now_ms;
                if counted {
                    rec.restart_count = rec.restart_count.saturating_add(1);
                }
                self.processes.set(k, rec);
                proof {
                    assert forall|a: int, b: int| 0 <= a < b < self@.processes.len() implies
                        self@.processes[a].item.id@ != self@.processes[b].item.id@ by {
                        assert(old(self)@.processes[a].item.id@ != old(self)@.processes[b].item.id@);
                    }
                }
                true
            },
            None => false,
        }
    }

    /// Records that the startup launch of item `item_id` gave process `pid`
    /// at time `now_ms`; false where the engine has no record of it.
    pub fn record_start(&mut self, item_id: &str, pid: u32, now_ms: u64) -> (r: bool)
        requires
            old(self).wf(),
        ensures
            final(self).wf(),
            r == has_record(old(self)@.processes, item_id@),
            final(self)@ == (EngineState {
                processes: launched_records(old(self)@.processes, item_id@, pid, now_ms, false),
                ..old(self)@
            }),
    {
        self.record_launch(item_id, pid, now_ms, false)
    }

    /// Records that the restart of item `item_id` gave process `pid` at time
    /// `now_ms`, counting one more restart; false where the engine has no
    /// record of it. A failed restart is not recorded: the stale record stays
    /// and the next cycle tries again.
    pub fn record_restart(&mut self, item_id: &str, pid: u32, now_ms: u64) -> (r: bool)
        requires
            old(self).wf(),
        ensures
            final(self).wf(),
            r == has_record(old(self)@.processes, item_id@),
            final(self)@ == (EngineState {
                processes: launched_records(old(self)@.processes, item_id@, pid, now_ms, true),
                ..old(self)@
            }),
    {
        self.record_launch(item_id, pid, now_ms, true)
    }

    /// Empties the queue of pending changes, returning them in arrival order.
    pub fn take_pending_changes(&mut self) -> (r: Vec<ConfigChange>)
        requires
            old(self).wf(),
        ensures
            final(self).wf(),
            r@ == old(self)@.pending,
            final(self)@ == (EngineState { pending: Seq::empty(), ..old(self)@ }),
    {
        let mut r: Vec<ConfigChange> = Vec::new();
        std::mem::swap(&mut r, &mut self.pending_changes);
        assert(self@.pending =~= Seq::<ConfigChange>::empty());
        r
    }

    /// The process to kill, where it still runs, before `change` is applied:
    /// that of the item's record, where the change stops it.
    pub fn stop_target(&self, change: &ConfigChange) -> (r: Option<u32>)
        ensures
            r == stop_target_of(self@, *change),
    {
        if change.change_type.has_flag(ChangeType::Stop) {
            match find_record(&self.processes, change.item.id.as_str()) {
                Some(k) => self.processes[k].process_id,
                None => None,
            }
        } else {
            None
        }
    }

    /// Applies one drained change at time `now_ms`. `launched` is the
    /// process that launching `change.item` gave, where the change starts
    /// the item and the launch succeeded. Returns whether the configuration
    /// changed and should be persisted.
    pub fn apply_change(&mut self, change: ConfigChange, launched: Option<u32>, now_ms: u64) -> (persist: bool)
        requires
            old(self).wf(),
        ensures
            final(self).wf(),
            final(self)@ == applied_state(old(self)@, change, launched, now_ms),
            persist == change_persists(old(self)@, change, launched),
    {
        let ghost s0 = self@;
        let mut persist = false;
        if change.change_type.has_flag(ChangeType::Stop) {
            match find_record(&self.processes, change.item.id.as_str()) {
                Some(k) => {
                    let mut rec = self.processes[k].clone();
                    rec.item.enabled = false;
                    self.processes.set(k, rec);
                    proof {
                        assert forall|a: int, b: int| 0 <= a < b < self@.processes.len() implies
                            self@.processes[a].item.id@ != self@.processes[b].item.id@ by {
                            assert(s0.processes[a].item.id@ != s0.processes[b].item.id@);
                        }
                    }
                },
                None => {},
            }
            if set_enabled_in(&mut self.config.items, change.item.id.as_str(), false) {
                persist = true;
            }
        }
        assert(self@ == stop_step(s0, change));
        let ghost s1 = self@;
        if change.change_type.has_flag(ChangeType::Remove) {
            self.processes = retain_other_records(&self.processes, change.item.id.as_str());
            let (kept, _) = crate::config::retain_other_ids(&self.config.items, change.item.id.as_str());
            self.config.items = kept;
            persist = true;
        }
        assert(self@ == remove_step(s1, change));
        if change.change_type.has_flag(ChangeType::Start) {
            match launched {
                Some(pid) => {
                    let mut item = change.item;
                    item.enabled = true;
                    let mut rec = MonitoredProcess::from_item(item.clone(), now_ms);
                    rec.process_id = Some(pid);
                    proof {
                        lemma_upsert_unique(self@.processes, rec);
                    }
                    upsert(&mut self.processes, rec);
                    if crate::config::update_item(&mut self.config, item.clone()).is_err() {
                        self.config.items.push(item);
                    }
                    persist = true;
                },
                None => {},
            }
        }
        persist
    }

    /// A point-in-time snapshot at time `now_ms`, one entry per record in
    /// record order, given a fresh liveness probe of each record's process.
    pub fn get_status(&self, now_ms: u64, alive: &Vec<bool>) -> (r: StatusReport)
        ensures
            r.service_running,
            r.total_items == self@.processes.len(),
            r.items@.len() == self@.processes.len(),
            forall|j: int| 0 <= j < r.items@.len() ==> reports(r.items@[j], self@.processes[j], alive_at(alive@, j), now_ms),
    {
        let mut items: Vec<ItemStatus> = Vec::new();
        let mut i: usize = 0;
        while i < self.processes.len()
            invariant
                i <= self@.processes.len(),
                items@.len() == i,
                forall|j: int| 0 <= j < i ==> reports(items@[j], self@.processes[j], alive_at(alive@, j), now_ms),
            decreases self@.processes.len() - i,
        {
            let p = &self.processes[i];
            let probe = i < alive.len() && alive[i];
            let age = if now_ms >= p.last_heartbeat_ms { now_ms - p.last_heartbeat_ms } else { 0 };
            items.push(ItemStatus {
                id: p.item.id.clone(),
                name: p.item.name.clone(),
                exe_path: p.item.exe_path.clone(),
                enabled: p.item.enabled,
                process_id: p.process_id,
                last_heartbeat_ms: age,
                heartbeat_timeout_ms: p.item.heartbeat_timeout_ms,
                restart_count: p.restart_count,
                is_alive: probe && p.process_id.is_some(),
                is_heartbeat_ok: !p.is_heartbeat_timeout(now_ms),
            });
            i = i + 1;
        }
        StatusReport { service_running: true, total_items: items.len(), items }
    }

    /// Appends an item to the configuration.
    pub(crate) fn push_item(&mut self, item: MonitorItem)
        requires
            old(self).wf(),
        ensures
            final(self).wf(),
            final(self)@ == (EngineState { items: old(self)@.items.push(item), ..old(self)@ }),
    {
        self.config.items.push(item);
    }

    /// Replaces the first configured item with the id of `item`.
    pub(crate) fn replace_item(&mut self, item: MonitorItem) -> (found: bool)
        requires
            old(self).wf(),
        ensures
            final(self).wf(),
            found == has_id(old(self)@.items, item.id@),
            final(self)@ == (EngineState { items: replace_first(old(self)@.items, item), ..old(self)@ }),
    {
        crate::config::update_item(&mut self.config, item).is_ok()
    }

    /// Drops every configured item of id `id`.
    pub(crate) fn drop_items(&mut self, id: &str)
        requires
            old(self).wf(),
        ensures
            final(self).wf(),
            final(self)@ == (EngineState { items: without_id(old(self)@.items, id@), ..old(self)@ }),
    {
        let (kept, _) = crate::config::retain_other_ids(&self.config.items, id);
        self.config.items = kept;
    }
}

} // verus!
