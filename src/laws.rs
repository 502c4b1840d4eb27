//! Properties that relate several operations of the engine, proved over the
//! same spec functions that the operations' contracts use.
use crate::config::{
    deduplicated, enabled_copy, first_with_id, has_id, paths_unique, path_key, sorted_by_path, without_id,
};
use crate::guardian::{
    alive_at, applied_state, has_record, heartbeat_state, lemma_no_record, lemma_record_pos, needs_restart,
    record_pos, records_unique, restart_plan, startup_records, startup_state, started_record, is_record_of,
    EngineState, RestartOrder,
};
use crate::models::{fresh_record, heartbeat_age, heartbeat_timed_out, ChangeType, ConfigChange, MonitorItem, MonitoredProcess};
use crate::text::lemma_text_lt_irreflexive;
use vstd::prelude::*;

verus! {

/// No two items share an id.
pub open spec fn ids_unique(items: Seq<MonitorItem>) -> bool {
    forall|i: int, j: int| 0 <= i < j < items.len() ==> items[i].id@ != items[j].id@
}

proof fn lemma_first_record_exists(ps: Seq<MonitoredProcess>, id: Seq<char>, k0: int)
    requires
        0 <= k0 < ps.len(),
        ps[k0].item.id@ == id,
    ensures
        exists|k: int| is_record_of(ps, id, k),
    decreases k0,
{
    if exists|j: int| 0 <= j < k0 && ps[j].item.id@ == id {
        let j = choose|j: int| 0 <= j < k0 && ps[j].item.id@ == id;
        lemma_first_record_exists(ps, id, j);
    } else {
        assert(is_record_of(ps, id, k0));
    }
}

/// Where the records hold one of id `id`, `record_pos` finds it.
proof fn lemma_record_found(ps: Seq<MonitoredProcess>, id: Seq<char>)
    requires
        has_record(ps, id),
    ensures
        0 <= record_pos(ps, id) < ps.len(),
        ps[record_pos(ps, id)].item.id@ == id,
{
    let k0 = choose|k: int| 0 <= k < ps.len() && ps[k].item.id@ == id;
    lemma_first_record_exists(ps, id, k0);
    let k = choose|k: int| is_record_of(ps, id, k);
    lemma_record_pos(ps, id, k);
}

proof fn lemma_startup_records_distinct(items: Seq<MonitorItem>, now: u64)
    requires
        ids_unique(items),
    ensures
        startup_records(items, now) == items.map_values(|it: MonitorItem| fresh_record(it, now)),
    decreases items.len(),
{
    let f = |it: MonitorItem| fresh_record(it, now);
    if items.len() > 0 {
        let prev = items.drop_last();
        lemma_startup_records_distinct(prev, now);
        let ps = prev.map_values(f);
        let id = items.last().id@;
        assert(!has_record(ps, id)) by {
            if has_record(ps, id) {
                let k = choose|k: int| 0 <= k < ps.len() && ps[k].item.id@ == id;
                assert(items[k].id@ == items[items.len() - 1].id@);
            }
        }
        lemma_no_record(ps, id);
        assert(ps.push(f(items.last())) =~= items.map_values(f));
    } else {
        assert(items.map_values(f) =~= Seq::<MonitoredProcess>::empty());
    }
}

/// After construction every configured item is enabled and, where the
/// configuration's ids are distinct, there is exactly one fresh, enabled
/// record per item, in configuration order.
pub proof fn lemma_startup_enables_all(items: Seq<MonitorItem>, now: u64)
    ensures
        startup_state(items, now).items.len() == items.len(),
        forall|i: int| 0 <= i < items.len() ==> #[trigger] startup_state(items, now).items[i] == enabled_copy(items[i]),
        forall|i: int| 0 <= i < items.len() ==> #[trigger] startup_state(items, now).items[i].enabled,
        ids_unique(items) ==> startup_state(items, now).processes.len() == items.len(),
        ids_unique(items) ==> forall|i: int| 0 <= i < items.len() ==> {
            &&& #[trigger] startup_state(items, now).processes[i] == fresh_record(enabled_copy(items[i]), now)
            &&& startup_state(items, now).processes[i].item.enabled
        },
{
    let enabled = items.map_values(|it: MonitorItem| enabled_copy(it));
    if ids_unique(items) {
        assert(ids_unique(enabled)) by {
            assert forall|i: int, j: int| 0 <= i < j < enabled.len() implies enabled[i].id@ != enabled[j].id@ by {
                assert(items[i].id@ != items[j].id@);
            }
        }
        lemma_startup_records_distinct(enabled, now);
    }
}

/// A heartbeat for an unknown id changes nothing; for a known one it leaves
/// the record with no time passed since its heartbeat, so it is not timed out.
pub proof fn lemma_heartbeat_resets_age(s: EngineState, id: Seq<char>, now: u64)
    ensures
        !has_record(s.processes, id) ==> heartbeat_state(s, id, now) == s,
        has_record(s.processes, id) ==> {
            let t = heartbeat_state(s, id, now);
            let k = record_pos(s.processes, id);
            &&& 0 <= k < t.processes.len()
            &&& t.processes[k].item.id@ == id
            &&& heartbeat_age(t.processes[k], now) == 0
            &&& !heartbeat_timed_out(t.processes[k], now)
            &&& t.items == s.items
            &&& t.pending == s.pending
        },
{
    if has_record(s.processes, id) {
        lemma_record_found(s.processes, id);
    } else {
        lemma_no_record(s.processes, id);
    }
}

/// How many orders for item `id` a plan holds.
pub open spec fn orders_for(plan: Seq<RestartOrder>, id: Seq<char>) -> nat {
    plan.filter(|o: RestartOrder| o.item.id@ == id).len()
}

proof fn lemma_orders_for_prefix(ps: Seq<MonitoredProcess>, alive: Seq<bool>, now: u64, k: int, n: int)
    requires
        records_unique(ps),
        0 <= k < ps.len(),
        0 <= n <= ps.len(),
    ensures
        orders_for(restart_plan(ps, alive, now, n), ps[k].item.id@) == if k < n && needs_restart(
            ps[k],
            alive_at(alive, k),
            now,
        ) {
            1nat
        } else {
            0nat
        },
    decreases n,
{
    if n > 0 {
        lemma_orders_for_prefix(ps, alive, now, k, n - 1);
        let prev = restart_plan(ps, alive, now, n - 1);
        let id = ps[k].item.id@;
        let pred = |o: RestartOrder| o.item.id@ == id;
        if needs_restart(ps[n - 1], alive_at(alive, n - 1), now) {
            let o = RestartOrder {
                item: ps[n - 1].item,
                kill_pid: if alive_at(alive, n - 1) { ps[n - 1].process_id } else { None },
            };
            assert(prev.push(o).drop_last() =~= prev);
            reveal(Seq::filter);
            if n - 1 != k {
                if n - 1 < k {
                    assert(ps[n - 1].item.id@ != ps[k].item.id@);
                } else {
                    assert(ps[k].item.id@ != ps[n - 1].item.id@);
                }
            }
        }
    }
}

/// In a check cycle a record that is alive and within its heartbeat timeout
/// gets no restart, and an enabled record whose heartbeat timed out gets
/// exactly one, alive or not; in general a record gets one restart where it
/// needs one and none otherwise. Recording that restart counts one more.
pub proof fn lemma_restart_policy(ps: Seq<MonitoredProcess>, alive: Seq<bool>, now: u64, k: int)
    requires
        records_unique(ps),
        0 <= k < ps.len(),
    ensures
        orders_for(restart_plan(ps, alive, now, ps.len() as int), ps[k].item.id@) == if needs_restart(
            ps[k],
            alive_at(alive, k),
            now,
        ) {
            1nat
        } else {
            0nat
        },
        alive_at(alive, k) && ps[k].process_id is Some && !heartbeat_timed_out(ps[k], now) ==> orders_for(
            restart_plan(ps, alive, now, ps.len() as int),
            ps[k].item.id@,
        ) == 0,
        ps[k].item.enabled && heartbeat_timed_out(ps[k], now) ==> orders_for(
            restart_plan(ps, alive, now, ps.len() as int),
            ps[k].item.id@,
        ) == 1,
        forall|pid: u32|
            ps[k].restart_count < u32::MAX ==> #[trigger] crate::guardian::launched_records(
                ps,
                ps[k].item.id@,
                pid,
                now,
                true,
            )[k].restart_count == ps[k].restart_count + 1,
{
    lemma_orders_for_prefix(ps, alive, now, k, ps.len() as int);
    assert(is_record_of(ps, ps[k].item.id@, k)) by {
        assert forall|j: int| 0 <= j < k implies ps[j].item.id@ != ps[k].item.id@ by {}
    }
    lemma_record_pos(ps, ps[k].item.id@, k);
}

/// Where the record of `rec`'s id after an upsert is, and that it is `rec`.
proof fn lemma_upsert_finds(ps: Seq<MonitoredProcess>, rec: MonitoredProcess)
    ensures
        0 <= record_pos(crate::guardian::upsert_record(ps, rec), rec.item.id@) < crate::guardian::upsert_record(ps, rec).len(),
        crate::guardian::upsert_record(ps, rec)[record_pos(crate::guardian::upsert_record(ps, rec), rec.item.id@)] == rec,
{
    let id = rec.item.id@;
    let k = record_pos(ps, id);
    let t = crate::guardian::upsert_record(ps, rec);
    if exists|j: int| is_record_of(ps, id, j) {
        let j = choose|j: int| is_record_of(ps, id, j);
        lemma_record_pos(ps, id, j);
        assert(is_record_of(t, id, j));
        lemma_record_pos(t, id, j);
    } else {
        if has_record(ps, id) {
            let j = choose|j: int| 0 <= j < ps.len() && ps[j].item.id@ == id;
            lemma_first_record_exists(ps, id, j);
        }
        assert(is_record_of(t, id, ps.len() as int));
        lemma_record_pos(t, id, ps.len() as int);
    }
}

/// Applying a stop-and-start of an item, where the launch gave process
/// `pid`, leaves its record enabled and running as `pid` under the item's
/// settings, and the configured item of its id updated to those settings and
/// enabled: no snapshot after the drain sees it disabled. This holds whatever
/// the enabled flag of the item in the change.
pub proof fn lemma_stop_start_keeps_enabled(s: EngineState, item: MonitorItem, pid: u32, now: u64)
    ensures
        ({
            let t = applied_state(s, ConfigChange { item, change_type: ChangeType::StopStart }, Some(pid), now);
            let k = record_pos(t.processes, item.id@);
            &&& 0 <= k < t.processes.len()
            &&& t.processes[k] == started_record(item, pid, now)
            &&& t.processes[k].item == enabled_copy(item)
            &&& t.processes[k].item.enabled
            &&& t.processes[k].process_id == Some(pid)
            &&& has_id(t.items, item.id@)
            &&& t.items[first_with_id(t.items, item.id@)] == enabled_copy(item)
            &&& t.items[first_with_id(t.items, item.id@)].enabled
        }),
{
    let c = ConfigChange { item, change_type: ChangeType::StopStart };
    let s1 = crate::guardian::remove_step(crate::guardian::stop_step(s, c), c);
    lemma_upsert_finds(s1.processes, started_record(item, pid, now));
    lemma_start_updates_item(s1.items, item);
}

/// The same holds of a stop followed by a start of the item in one drain.
pub proof fn lemma_stop_then_start_keeps_enabled(s: EngineState, item: MonitorItem, pid: u32, now: u64)
    ensures
        ({
            let stopped = applied_state(s, ConfigChange { item, change_type: ChangeType::Stop }, None, now);
            let t = applied_state(stopped, ConfigChange { item, change_type: ChangeType::Start }, Some(pid), now);
            let k = record_pos(t.processes, item.id@);
            &&& 0 <= k < t.processes.len()
            &&& t.processes[k] == started_record(item, pid, now)
            &&& t.processes[k].item == enabled_copy(item)
            &&& t.processes[k].item.enabled
            &&& t.processes[k].process_id == Some(pid)
            &&& has_id(t.items, item.id@)
            &&& t.items[first_with_id(t.items, item.id@)] == enabled_copy(item)
            &&& t.items[first_with_id(t.items, item.id@)].enabled
        }),
{
    let stopped = applied_state(s, ConfigChange { item, change_type: ChangeType::Stop }, None, now);
    lemma_upsert_finds(stopped.processes, started_record(item, pid, now));
    lemma_start_updates_item(stopped.items, item);
}

proof fn lemma_first_item_exists(items: Seq<MonitorItem>, id: Seq<char>, k0: int)
    requires
        0 <= k0 < items.len(),
        items[k0].id@ == id,
    ensures
        0 <= first_with_id(items, id) < items.len(),
        items[first_with_id(items, id)].id@ == id,
    decreases k0,
{
    if exists|j: int| 0 <= j < k0 && items[j].id@ == id {
        let j = choose|j: int| 0 <= j < k0 && items[j].id@ == id;
        lemma_first_item_exists(items, id, j);
    } else {
        assert(crate::config::is_first_with_id(items, id, k0));
        crate::config::lemma_first_with_id(items, id, k0);
    }
}

/// After a successful start the first configured item of the id is the
/// started item, enabled.
proof fn lemma_start_updates_item(items: Seq<MonitorItem>, item: MonitorItem)
    ensures
        ({
            let t = if has_id(items, item.id@) {
                crate::config::replace_first(items, enabled_copy(item))
            } else {
                items.push(enabled_copy(item))
            };
            has_id(t, item.id@) && t[first_with_id(t, item.id@)] == enabled_copy(item)
        }),
{
    let id = item.id@;
    let e = enabled_copy(item);
    if has_id(items, id) {
        let k0 = choose|k: int| 0 <= k < items.len() && items[k].id@ == id;
        lemma_first_item_exists(items, id, k0);
        let k = first_with_id(items, id);
        let t = items.update(k, e);
        assert(crate::config::is_first_with_id(items, id, k)) by {
            let c = choose|c: int| crate::config::is_first_with_id(items, id, c);
        }
        assert(crate::config::is_first_with_id(t, id, k));
        crate::config::lemma_first_with_id(t, id, k);
    } else {
        let t = items.push(e);
        assert forall|j: int| 0 <= j < items.len() implies t[j].id@ != id by {}
        assert(crate::config::is_first_with_id(t, id, items.len() as int));
        crate::config::lemma_first_with_id(t, id, items.len() as int);
    }
}

/// Removing a known item: the protocol drops it from the configuration and,
/// once persisted, queues a stop-and-remove of it; applying that change
/// leaves neither a configured item nor a runtime record of the id.
pub proof fn lemma_remove_reaches_runtime(s: EngineState, id: Seq<char>, now: u64)
    requires
        has_id(s.items, id),
    ensures
        ({
            let c = ConfigChange { item: s.items[first_with_id(s.items, id)], change_type: ChangeType::StopRemove };
            let queued = EngineState { items: without_id(s.items, id), pending: s.pending.push(c), ..s };
            let t = applied_state(queued, c, None, now);
            &&& !has_id(t.items, id)
            &&& !has_record(t.processes, id)
        }),
{
    let k0 = choose|k: int| 0 <= k < s.items.len() && s.items[k].id@ == id;
    lemma_first_item_exists(s.items, id, k0);
    let c = ConfigChange { item: s.items[first_with_id(s.items, id)], change_type: ChangeType::StopRemove };
    let queued = EngineState { items: without_id(s.items, id), pending: s.pending.push(c), ..s };
    let s1 = crate::guardian::stop_step(queued, c);
    let t = applied_state(queued, c, None, now);
    let item_pred = |it: MonitorItem| it.id@ != id;
    let rec_pred = |p: MonitoredProcess| p.item.id@ != id;
    assert(!has_id(t.items, id)) by {
        if has_id(t.items, id) {
            let j = choose|j: int| 0 <= j < t.items.len() && t.items[j].id@ == id;
            s1.items.lemma_filter_pred(item_pred, j);
        }
    }
    assert(!has_record(t.processes, id)) by {
        if has_record(t.processes, id) {
            let j = choose|j: int| 0 <= j < t.processes.len() && t.processes[j].item.id@ == id;
            s1.processes.lemma_filter_pred(rec_pred, j);
        }
    }
}

/// Loading a list whose paths are already distinct without regard to case
/// keeps it as it is; so saving it, loading it and saving again writes the
/// same list.
pub proof fn lemma_load_keeps_unique(items: Seq<MonitorItem>, loaded: Seq<MonitorItem>)
    requires
        paths_unique(items),
        deduplicated(items, loaded),
    ensures
        loaded == items,
{
}

/// What loading yields has distinct paths, so loading it again changes nothing.
pub proof fn lemma_load_idempotent(items: Seq<MonitorItem>, loaded: Seq<MonitorItem>, reloaded: Seq<MonitorItem>)
    requires
        deduplicated(items, loaded),
        deduplicated(loaded, reloaded),
    ensures
        paths_unique(loaded),
        reloaded == loaded,
{
    if !paths_unique(items) {
        assert forall|a: int, b: int| 0 <= a < b < loaded.len() implies path_key(loaded[a]) != path_key(loaded[b]) by {
            assert(sorted_by_path(loaded));
            if path_key(loaded[a]) == path_key(loaded[b]) {
                lemma_text_lt_irreflexive(path_key(loaded[a]));
            }
        }
    }
}

} // verus!
