use crate::models::{Config, MonitorItem};
use crate::text::{lemma_text_lt_total, lemma_text_lt_transitive, lower_of, lowercase, text_less, text_lt};
use vstd::prelude::*;

verus! {

/// Why a configuration edit was refused.
pub enum ConfigError {
    AlreadyExists(String),
    NotFound(String),
}

/// Whether `k` is the first position whose item has id `id`.
pub open spec fn is_first_with_id(items: Seq<MonitorItem>, id: Seq<char>, k: int) -> bool {
    &&& 0 <= k < items.len()
    &&& items[k].id@ == id
    &&& forall|j: int| 0 <= j < k ==> items[j].id@ != id
}

pub open spec fn has_id(items: Seq<MonitorItem>, id: Seq<char>) -> bool {
    exists|k: int| 0 <= k < items.len() && items[k].id@ == id
}

/// The first position whose item has id `id`, or -1 where none has.
pub open spec fn first_with_id(items: Seq<MonitorItem>, id: Seq<char>) -> int {
    if exists|k: int| is_first_with_id(items, id, k) {
        choose|k: int| is_first_with_id(items, id, k)
    } else {
        -1
    }
}

/// The items whose id is not `id`, in order.
pub open spec fn without_id(items: Seq<MonitorItem>, id: Seq<char>) -> Seq<MonitorItem> {
    items.filter(|it: MonitorItem| it.id@ != id)
}

/// The items with the first one of id `item.id` replaced by `item`.
pub open spec fn replace_first(items: Seq<MonitorItem>, item: MonitorItem) -> Seq<MonitorItem> {
    let k = first_with_id(items, item.id@);
    if k >= 0 {
        items.update(k, item)
    } else {
        items
    }
}

pub proof fn lemma_first_with_id(items: Seq<MonitorItem>, id: Seq<char>, k: int)
    requires
        is_first_with_id(items, id, k),
    ensures
        first_with_id(items, id) == k,
{
    let c = choose|c: int| is_first_with_id(items, id, c);
    assert(is_first_with_id(items, id, c));
    if c < k {
        assert(items[c].id@ != id);
    } else if k < c {
        assert(items[k].id@ != id);
    }
}

pub proof fn lemma_no_id(items: Seq<MonitorItem>, id: Seq<char>)
    requires
        !has_id(items, id),
    ensures
        first_with_id(items, id) == -1,
{
    if exists|k: int| is_first_with_id(items, id, k) {
        let c = choose|c: int| is_first_with_id(items, id, c);
        assert(items[c].id@ == id);
    }
}

/// The position of the first item with id `id`.
pub fn find_item_index(items: &Vec<MonitorItem>, id: &str) -> (r: Option<usize>)
    ensures
        match r {
            Some(k) => is_first_with_id(items@, id@, k as int),
            None => !has_id(items@, id@),
        },
        r matches Some(k) ==> first_with_id(items@, id@) == k,
        r is None <==> first_with_id(items@, id@) == -1,
{
    let key = id.to_string();
    let mut i: usize = 0;
    while i < items.len()
        invariant
            i <= items@.len(),
            key@ == id@,
            forall|j: int| 0 <= j < i ==> items@[j].id@ != id@,
        decreases items@.len() - i,
    {
        if items[i].id == key {
            proof {
                lemma_first_with_id(items@, id@, i as int);
            }
            return Some(i);
        }
        i = i + 1;
    }
    proof {
        lemma_no_id(items@, id@);
    }
    None
}

/// The first item with id `id`.
pub fn get_item<'a>(config: &'a Config, id: &str) -> (r: Option<&'a MonitorItem>)
    ensures
        match r {
            Some(it) => {
                &&& first_with_id(config.items@, id@) >= 0
                &&& *it == config.items@[first_with_id(config.items@, id@)]
            },
            None => !has_id(config.items@, id@),
        },
{
    match find_item_index(&config.items, id) {
        Some(k) => Some(&config.items[k]),
        None => None,
    }
}

/// Mutable access to the first item with id `id`.
pub fn get_item_mut<'a>(config: &'a mut Config, id: &str) -> (r: Option<&'a mut MonitorItem>)
    ensures
        match r {
            Some(it) => {
                let k = first_with_id(old(config).items@, id@);
                &&& k >= 0
                &&& *it == old(config).items@[k]
                &&& final(config).items@ == old(config).items@.update(k, *final(it))
            },
            None => {
                &&& !has_id(old(config).items@, id@)
                &&& final(config).items@ == old(config).items@
            },
        },
{
    match find_item_index(&config.items, id) {
        Some(k) => Some(&mut config.items[k]),
        None => None,
    }
}

/// Appends `item` unless an item with its id is already there.
pub fn add_item(config: &mut Config, item: MonitorItem) -> (r: Result<(), ConfigError>)
    ensures
        match r {
            Ok(()) => {
                &&& !has_id(old(config).items@, item.id@)
                &&& final(config).items@ == old(config).items@.push(item)
            },
            Err(e) => {
                &&& has_id(old(config).items@, item.id@)
                &&& e matches ConfigError::AlreadyExists(id) && id@ == item.id@
                &&& final(config).items@ == old(config).items@
            },
        },
{
    match find_item_index(&config.items, item.id.as_str()) {
        Some(_) => Err(ConfigError::AlreadyExists(item.id.clone())),
        None => {
            config.items.push(item);
            Ok(())
        },
    }
}

/// Replaces the first item with the id of `item` by `item`.
pub fn update_item(config: &mut Config, item: MonitorItem) -> (r: Result<(), ConfigError>)
    ensures
        r is Ok <==> has_id(old(config).items@, item.id@),
        r matches Err(e) ==> e matches ConfigError::NotFound(id) && id@ == item.id@,
        final(config).items@ == replace_first(old(config).items@, item),
{
    match find_item_index(&config.items, item.id.as_str()) {
        Some(k) => {
            config.items.set(k, item);
            Ok(())
        },
        None => Err(ConfigError::NotFound(item.id.clone())),
    }
}

/// The items without those of id `id`, and whether any was dropped.
pub(crate) fn retain_other_ids(items: &Vec<MonitorItem>, id: &str) -> (r: (Vec<MonitorItem>, bool))
    ensures
        r.0@ == without_id(items@, id@),
        r.1 == has_id(items@, id@),
{
    let key = id.to_string();
    let mut kept: Vec<MonitorItem> = Vec::new();
    let mut dropped = false;
    let mut i: usize = 0;
    while i < items.len()
        invariant
            i <= items@.len(),
            key@ == id@,
            kept@ == without_id(items@.subrange(0, i as int), id@),
            dropped == exists|j: int| 0 <= j < i && items@[j].id@ == id@,
        decreases items@.len() - i,
    {
        proof {
            assert(items@.subrange(0, i + 1).drop_last() =~= items@.subrange(0, i as int));
            reveal(Seq::filter);
        }
        if items[i].id == key {
            dropped = true;
        } else {
            kept.push(items[i].clone());
        }
        i = i + 1;
    }
    assert(items@.subrange(0, items@.len() as int) =~= items@);
    (kept, dropped)
}

/// Drops every item with id `id`; an error where there is none.
pub fn remove_item(config: &mut Config, id: &str) -> (r: Result<(), ConfigError>)
    ensures
        r is Ok <==> has_id(old(config).items@, id@),
        r matches Err(e) ==> e matches ConfigError::NotFound(i) && i@ == id@,
        final(config).items@ == without_id(old(config).items@, id@),
{
    let (kept, dropped) = retain_other_ids(&config.items, id);
    if dropped {
        config.items = kept;
        Ok(())
    } else {
        proof {
            assert(without_id(config.items@, id@) =~= config.items@) by {
                assert forall|j: int| 0 <= j < config.items@.len() implies (|it: MonitorItem|
                    it.id@ != id@)(config.items@[j]) by {}
                lemma_filter_all(config.items@, |it: MonitorItem| it.id@ != id@);
            }
        }
        Err(ConfigError::NotFound(id.to_string()))
    }
}

/// A filter that every element passes keeps the sequence.
pub proof fn lemma_filter_all<A>(s: Seq<A>, pred: spec_fn(A) -> bool)
    requires
        forall|j: int| 0 <= j < s.len() ==> pred(s[j]),
    ensures
        s.filter(pred) == s,
    decreases s.len(),
{
    reveal(Seq::filter);
    if s.len() > 0 {
        lemma_filter_all(s.drop_last(), pred);
        assert(s.drop_last().push(s.last()) =~= s);
    } else {
        assert(s.filter(pred) =~= s);
    }
}

/// The item with `enabled` set.
pub open spec fn enabled_copy(it: MonitorItem) -> MonitorItem {
    MonitorItem { enabled: true, ..it }
}

/// Enables every item; true where one was disabled.
pub fn force_enable_all(config: &mut Config) -> (changed: bool)
    ensures
        final(config).items@ == old(config).items@.map_values(|it: MonitorItem| enabled_copy(it)),
        changed == exists|j: int| 0 <= j < old(config).items@.len() && !old(config).items@[j].enabled,
{
    let ghost before = config.items@;
    let mut changed = false;
    let mut i: usize = 0;
    while i < config.items.len()
        invariant
            i <= config.items@.len(),
            config.items@.len() == before.len(),
            forall|j: int| 0 <= j < i ==> config.items@[j] == enabled_copy(before[j]),
            forall|j: int| i <= j < before.len() ==> config.items@[j] == before[j],
            changed == exists|j: int| 0 <= j < i && !before[j].enabled,
        decreases config.items@.len() - i,
    {
        if !config.items[i].enabled {
            let mut it = config.items[i].clone();
            it.enabled = true;
            config.items.set(i, it);
            changed = true;
        } else {
            assert(config.items@[i as int] == enabled_copy(before[i as int]));
        }
        i = i + 1;
    }
    assert(config.items@ =~= before.map_values(|it: MonitorItem| enabled_copy(it)));
    changed
}


/// The key under which executable paths are compared: the lowercased path.
pub open spec fn path_key(it: MonitorItem) -> Seq<char> {
    lower_of(it.exe_path@)
}

/// No two items share an executable path, compared without regard to case.
pub open spec fn paths_unique(items: Seq<MonitorItem>) -> bool {
    forall|i: int, j: int| 0 <= i < j < items.len() ==> path_key(items[i]) != path_key(items[j])
}

/// Whether no later item shares the path of the item at `i`.
pub open spec fn is_last_of_path(items: Seq<MonitorItem>, i: int) -> bool {
    &&& 0 <= i < items.len()
    &&& forall|j: int| i < j < items.len() ==> path_key(items[j]) != path_key(items[i])
}

/// Items in strictly increasing order of their path keys.
pub open spec fn sorted_by_path(items: Seq<MonitorItem>) -> bool {
    forall|a: int, b: int| 0 <= a < b < items.len() ==> text_lt(path_key(items[a]), path_key(items[b]))
}

/// Whether `it` is the last item of its path among the first `i` items.
pub open spec fn is_kept_among(items: Seq<MonitorItem>, it: MonitorItem, i: int) -> bool {
    exists|i0: int| 0 <= i0 < i && is_last_of_path(items, i0) && it == items[i0]
}

/// What loading makes of a list of items. Where no two share a path, the
/// list stays as it is. Otherwise, for each path only its last item in list
/// order stays, and those are ordered by path key.
pub open spec fn deduplicated(items: Seq<MonitorItem>, r: Seq<MonitorItem>) -> bool {
    if paths_unique(items) {
        r == items
    } else {
        &&& sorted_by_path(r)
        &&& forall|j: int| 0 <= j < r.len() ==> #[trigger] is_kept_among(items, r[j], items.len() as int)
        &&& forall|i: int| is_last_of_path(items, i) ==> #[trigger] r.contains(items[i])
    }
}

/// Inserts `item`, whose key `key` no element has, where the order by path
/// key puts it; returns the position.
fn insert_by_path(out: &mut Vec<MonitorItem>, out_keys: &mut Vec<String>, item: MonitorItem, key: String) -> (p: usize)
    requires
        old(out)@.len() == old(out_keys)@.len(),
        old(out)@.len() < usize::MAX,
        forall|j: int| 0 <= j < old(out)@.len() ==> old(out_keys)@[j]@ == path_key(old(out)@[j]),
        sorted_by_path(old(out)@),
        key@ == path_key(item),
        forall|j: int| 0 <= j < old(out)@.len() ==> path_key(old(out)@[j]) != key@,
    ensures
        p <= old(out)@.len(),
        final(out)@ == old(out)@.insert(p as int, item),
        final(out)@.len() == final(out_keys)@.len(),
        forall|j: int| 0 <= j < final(out)@.len() ==> final(out_keys)@[j]@ == path_key(final(out)@[j]),
        sorted_by_path(final(out)@),
{
    let mut p: usize = 0;
    while p < out_keys.len() && !text_less(key.as_str(), out_keys[p].as_str())
        invariant
            p <= out_keys@.len(),
            out@.len() == out_keys@.len(),
            forall|j: int| 0 <= j < out@.len() ==> out_keys@[j]@ == path_key(out@[j]),
            forall|j: int| 0 <= j < out@.len() ==> path_key(out@[j]) != key@,
            forall|q: int| 0 <= q < p ==> text_lt(path_key(out@[q]), key@),
        decreases out_keys@.len() - p,
    {
        proof {
            lemma_text_lt_total(key@, path_key(out@[p as int]));
        }
        p = p + 1;
    }
    let ghost before = out@;
    let ghost before_keys = out_keys@;
    out.insert(p, item);
    out_keys.insert(p, key);
    proof {
        before.insert_ensures(p as int, item);
        before_keys.insert_ensures(p as int, key);
        assert forall|j: int| 0 <= j < out@.len() implies out_keys@[j]@ == path_key(out@[j]) by {
            if j > p {
                assert(out@[j] == before[j - 1]);
                assert(out_keys@[j] == before_keys[j - 1]);
            }
        }
        assert forall|a: int, b: int| 0 <= a < b < out@.len() implies text_lt(
            path_key(out@[a]),
            path_key(out@[b]),
        ) by {
            if b < p {
            } else if b == p {
            } else if a < p {
                assert(out@[b] == before[b - 1]);
                if b - 1 > p {
                    lemma_text_lt_transitive(key@, path_key(before[p as int]), path_key(before[b - 1]));
                }
                lemma_text_lt_transitive(path_key(before[a]), key@, path_key(before[b - 1]));
            } else if a == p {
                assert(out@[b] == before[b - 1]);
                if b - 1 > p {
                    lemma_text_lt_transitive(key@, path_key(before[p as int]), path_key(before[b - 1]));
                }
            } else {
                assert(out@[a] == before[a - 1]);
                assert(out@[b] == before[b - 1]);
            }
        }
    }
    p
}

/// The path key of each item.
fn path_keys(items: &Vec<MonitorItem>) -> (keys: Vec<String>)
    ensures
        keys@.len() == items@.len(),
        forall|j: int| 0 <= j < items@.len() ==> keys@[j]@ == path_key(items@[j]),
{
    let mut keys: Vec<String> = Vec::new();
    let mut i: usize = 0;
    while i < items.len()
        invariant
            i <= items@.len(),
            keys@.len() == i,
            forall|j: int| 0 <= j < i ==> keys@[j]@ == path_key(items@[j]),
        decreases items@.len() - i,
    {
        keys.push(lowercase(items[i].exe_path.as_str()));
        i = i + 1;
    }
    keys
}

/// For each item, whether no later item shares its path key.
fn last_of_path_flags(items: &Vec<MonitorItem>, keys: &Vec<String>) -> (last: Vec<bool>)
    requires
        keys@.len() == items@.len(),
        forall|j: int| 0 <= j < items@.len() ==> keys@[j]@ == path_key(items@[j]),
    ensures
        last@.len() == items@.len(),
        forall|j: int| 0 <= j < items@.len() ==> last@[j] == is_last_of_path(items@, j),
{
    let n = items.len();
    let mut last: Vec<bool> = Vec::new();
    let mut i: usize = 0;
    while i < n
        invariant
            n == items@.len(),
            i <= n,
            keys@.len() == n,
            forall|j: int| 0 <= j < n ==> keys@[j]@ == path_key(items@[j]),
            last@.len() == i,
            forall|j: int| 0 <= j < i ==> last@[j] == is_last_of_path(items@, j),
        decreases n - i,
    {
        let mut is_last = true;
        let mut j: usize = i + 1;
        while j < n
            invariant
                n == items@.len(),
                i < j <= n,
                keys@.len() == n,
                forall|q: int| 0 <= q < n ==> keys@[q]@ == path_key(items@[q]),
                is_last == forall|q: int| i < q < j ==> path_key(items@[q]) != path_key(items@[i as int]),
            decreases n - j,
        {
            if keys[j] == keys[i] {
                is_last = false;
            }
            j = j + 1;
        }
        last.push(is_last);
        i = i + 1;
    }
    last
}

/// Every element of `out` is the last item of its path among the first `i`.
pub open spec fn drawn_from_last(items: Seq<MonitorItem>, out: Seq<MonitorItem>, i: int) -> bool {
    forall|j: int| 0 <= j < out.len() ==> #[trigger] is_kept_among(items, out[j], i)
}

/// Every last item of its path among the first `i` is an element of `out`.
pub open spec fn covers_last(items: Seq<MonitorItem>, out: Seq<MonitorItem>, i: int) -> bool {
    forall|i0: int| 0 <= i0 < i && is_last_of_path(items, i0) ==> #[trigger] out.contains(items[i0])
}

proof fn lemma_cover_insert(items: Seq<MonitorItem>, before: Seq<MonitorItem>, p: int, i: int)
    requires
        0 <= i < items.len(),
        is_last_of_path(items, i),
        0 <= p <= before.len(),
        drawn_from_last(items, before, i),
        covers_last(items, before, i),
    ensures
        drawn_from_last(items, before.insert(p, items[i]), i + 1),
        covers_last(items, before.insert(p, items[i]), i + 1),
{
    let out = before.insert(p, items[i]);
    before.insert_ensures(p, items[i]);
    assert forall|j: int| 0 <= j < out.len() implies #[trigger] is_kept_among(items, out[j], i + 1) by {
        if j < p {
            assert(is_kept_among(items, before[j], i));
        } else if j > p {
            assert(is_kept_among(items, before[j - 1], i));
        } else {
            assert(out[j] == items[i]);
        }
    }
    assert forall|i0: int| 0 <= i0 < i + 1 && is_last_of_path(items, i0) implies #[trigger] out.contains(items[i0]) by {
        if i0 < i {
            assert(before.contains(items[i0]));
            let j = choose|j: int| 0 <= j < before.len() && before[j] == items[i0];
            if j < p {
                assert(out[j] == before[j]);
            } else {
                assert(out[j + 1] == before[j]);
            }
        } else {
            assert(out[p] == items[i0]);
        }
    }
}

proof fn lemma_cover_skip(items: Seq<MonitorItem>, out: Seq<MonitorItem>, i: int)
    requires
        0 <= i < items.len(),
        !is_last_of_path(items, i),
        drawn_from_last(items, out, i),
        covers_last(items, out, i),
    ensures
        drawn_from_last(items, out, i + 1),
        covers_last(items, out, i + 1),
{
    assert forall|j: int| 0 <= j < out.len() implies #[trigger] is_kept_among(items, out[j], i + 1) by {
        assert(is_kept_among(items, out[j], i));
    }
}

proof fn lemma_key_is_new(items: Seq<MonitorItem>, out: Seq<MonitorItem>, i: int)
    requires
        0 <= i < items.len(),
        is_last_of_path(items, i),
        drawn_from_last(items, out, i),
    ensures
        forall|j: int| 0 <= j < out.len() ==> path_key(out[j]) != path_key(items[i]),
{
    assert forall|j: int| 0 <= j < out.len() implies path_key(out[j]) != path_key(items[i]) by {
        assert(is_kept_among(items, out[j], i));
        let i0 = choose|i0: int| 0 <= i0 < i && is_last_of_path(items, i0) && out[j] == items[i0];
        assert(path_key(items[i]) != path_key(items[i0]));
    }
}

/// The items whose flag is set, ordered by path key; see `deduplicated`.
fn keep_flagged_sorted(items: &Vec<MonitorItem>, keys: &Vec<String>, last: &Vec<bool>) -> (out: Vec<MonitorItem>)
    requires
        keys@.len() == items@.len(),
        forall|j: int| 0 <= j < items@.len() ==> keys@[j]@ == path_key(items@[j]),
        last@.len() == items@.len(),
        forall|j: int| 0 <= j < items@.len() ==> last@[j] == is_last_of_path(items@, j),
    ensures
        sorted_by_path(out@),
        drawn_from_last(items@, out@, items@.len() as int),
        covers_last(items@, out@, items@.len() as int),
{
    let n = items.len();
    let mut out: Vec<MonitorItem> = Vec::new();
    let mut out_keys: Vec<String> = Vec::new();
    let mut i: usize = 0;
    while i < n
        invariant
            n == items@.len(),
            i <= n,
            keys@.len() == n,
            forall|j: int| 0 <= j < n ==> keys@[j]@ == path_key(items@[j]),
            last@.len() == n,
            forall|j: int| 0 <= j < n ==> last@[j] == is_last_of_path(items@, j),
            out@.len() == out_keys@.len(),
            out@.len() <= i,
            forall|j: int| 0 <= j < out@.len() ==> out_keys@[j]@ == path_key(out@[j]),
            sorted_by_path(out@),
            drawn_from_last(items@, out@, i as int),
            covers_last(items@, out@, i as int),
        decreases n - i,
    {
        if last[i] {
            proof {
                lemma_key_is_new(items@, out@, i as int);
            }
            let ghost before = out@;
            let item = items[i].clone();
            let p = insert_by_path(&mut out, &mut out_keys, item, keys[i].clone());
            proof {
                lemma_cover_insert(items@, before, p as int, i as int);
            }
        } else {
            proof {
                lemma_cover_skip(items@, out@, i as int);
            }
        }
        i = i + 1;
    }
    out
}

/// Collapses items that share an executable path, compared without regard to
/// case, keeping the last of each in list order; see `deduplicated`. A list
/// that shrinks here should be written back.
pub fn deduplicate_exe_paths(config: Config) -> (r: Config)
    ensures
        deduplicated(config.items@, r.items@),
{
    let keys = path_keys(&config.items);
    let last = last_of_path_flags(&config.items, &keys);
    let mut duplicates_found = false;
    let mut i: usize = 0;
    while i < last.len()
        invariant
            i <= last@.len(),
            last@.len() == config.items@.len(),
            forall|j: int| 0 <= j < config.items@.len() ==> last@[j] == is_last_of_path(config.items@, j),
            !duplicates_found ==> forall|j: int| 0 <= j < i ==> is_last_of_path(config.items@, j),
            duplicates_found ==> !paths_unique(config.items@),
        decreases last@.len() - i,
    {
        if !last[i] {
            proof {
                let items = config.items@;
                let q = choose|q: int| i < q < items.len() && path_key(items[q]) == path_key(items[i as int]);
                assert(path_key(items[i as int]) == path_key(items[q]));
            }
            duplicates_found = true;
        }
        i = i + 1;
    }
    if !duplicates_found {
        assert(paths_unique(config.items@)) by {
            assert forall|a: int, b: int| 0 <= a < b < config.items@.len() implies path_key(config.items@[a])
                != path_key(config.items@[b]) by {
                assert(is_last_of_path(config.items@, a));
            }
        }
        return config;
    }
    let out = keep_flagged_sorted(&config.items, &keys, &last);
    Config { items: out }
}

} // verus!
