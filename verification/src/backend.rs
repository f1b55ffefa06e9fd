//! Backend state: most-recently-used order, active window, monitors and
//! thumbnail bookkeeping.
use std::collections::HashMap;
use std::time::Instant;
use vstd::prelude::*;
use vstd::string::*;
use crate::clock::{instant_now, whole_seconds_since};
use crate::config::MONITOR_REFRESH_SECS;
use crate::model::{copy_opt_string, duplicate_windows, same_opt_string, same_windows, SnapshotView, UiSnapshot, opt_chars, HyprctlMonitor, ThumbnailResult, windows_view, ThumbnailJob, ThumbnailState, UiStatus, WindowData, WindowView};
use crate::ordering::{sort_items, stable_sort};
use crate::table::{strings_view, AddressSet, AddressTable, PairSet};

verus! {

broadcast use vstd::std_specs::hash::group_hash_axioms;

/// The window that was active at the last refresh, and its monitor.
#[derive(Clone, Debug)]
pub struct ActiveState {
    pub address: String,
    pub monitor_name: String,
}

/// What the last emitted snapshot showed, without its revision.
#[derive(Clone, Debug)]
pub struct SnapshotContent {
    pub items: Vec<WindowData>,
    pub selected_address: Option<String>,
    pub status: UiStatus,
}

/// Mathematical value of a [`SnapshotContent`].
pub struct ContentView {
    pub items: Seq<WindowView>,
    pub selected_address: Option<Seq<char>>,
    pub status: UiStatus,
}

impl View for SnapshotContent {
    type V = ContentView;

    open spec fn view(&self) -> ContentView {
        ContentView {
            items: windows_view(self.items@),
            selected_address: opt_chars(self.selected_address),
            status: self.status,
        }
    }
}

/// Mathematical value of a [`BackendState`].
pub struct BackendView {
    pub revision: u64,
    pub focus_seq: u64,
    pub last_emitted: Option<ContentView>,
    pub last_successful_items: Seq<WindowView>,
    pub last_status: UiStatus,
    /// Address and monitor of the last active window.
    pub last_active: Option<(Seq<char>, Seq<char>)>,
    pub focus_seqs: Map<Seq<char>, u64>,
    pub mru_order: Seq<Seq<char>>,
    pub monitors: Map<i32, Seq<char>>,
    /// Whether the monitor names were ever fetched successfully.
    pub monitors_fetched: bool,
    pub last_gc_addresses: Set<Seq<char>>,
    pub thumbnail_states: Map<Seq<char>, ThumbnailState>,
    /// (address, monitor) pairs of thumbnail jobs in flight.
    pub in_flight: Set<(Seq<char>, Seq<char>)>,
}

/// The most-recently-used order lists each recorded address once, most
/// recent first, and each recorded focus number is at most the counter.
pub open spec fn mru_consistent(v: BackendView) -> bool {
    &&& v.mru_order.no_duplicates()
    &&& v.mru_order.to_set() == v.focus_seqs.dom()
    &&& forall|i: int, j: int|
        #![trigger v.mru_order[i], v.mru_order[j]]
        0 <= i < j < v.mru_order.len() ==> v.focus_seqs[v.mru_order[i]]
            > v.focus_seqs[v.mru_order[j]]
    &&& forall|a: Seq<char>|
        #[trigger] v.focus_seqs.contains_key(a) ==> 1 <= v.focus_seqs[a] <= v.focus_seq
}

/// `mru` with `a` moved (or added) to the front.
pub open spec fn mru_promote(mru: Seq<Seq<char>>, a: Seq<char>) -> Seq<Seq<char>> {
    if mru.contains(a) {
        seq![a] + mru.remove(mru.index_of(a))
    } else {
        seq![a] + mru
    }
}

/// The state after `a` is recorded as the newly active window.
pub open spec fn registered(pre: BackendView, a: Seq<char>) -> BackendView {
    if a.len() == 0 || (pre.last_active matches Some(s) && s.0 == a) {
        pre
    } else {
        BackendView {
            focus_seq: (pre.focus_seq + 1) as u64,
            focus_seqs: pre.focus_seqs.insert(a, (pre.focus_seq + 1) as u64),
            mru_order: mru_promote(pre.mru_order, a),
            ..pre
        }
    }
}

/// Whether reporting `a` as active is a change of the active window.
pub open spec fn is_new_active(pre: BackendView, a: Seq<char>) -> bool {
    match pre.last_active {
        Some(s) => s.0 != a,
        None => true,
    }
}

/// State after the compositor reports `a` on monitor `m` as active.
pub open spec fn transitioned(pre: BackendView, a: Seq<char>, m: Seq<char>) -> BackendView {
    if a.len() == 0 {
        pre
    } else {
        let mid = if is_new_active(pre, a) {
            registered(pre, a)
        } else {
            pre
        };
        BackendView { last_active: Some((a, m)), ..mid }
    }
}

/// The thumbnail job (address, monitor) that the transition asks for: the
/// previously active window, when the active window changed.
pub open spec fn transition_job(pre: BackendView, a: Seq<char>) -> Option<(Seq<char>, Seq<char>)> {
    if a.len() != 0 && is_new_active(pre, a) {
        pre.last_active
    } else {
        None
    }
}

/// The address and monitor of an optional job.
pub open spec fn job_view(job: Option<ThumbnailJob>) -> Option<(Seq<char>, Seq<char>)> {
    match job {
        Some(j) => Some((j.address@, j.monitor_name@)),
        None => None,
    }
}

/// Mutable state of the backend loop.
pub struct BackendState {
    revision: u64,
    focus_seq: u64,
    last_emitted: Option<SnapshotContent>,
    last_successful_items: Vec<WindowData>,
    last_status: UiStatus,
    last_active_state: Option<ActiveState>,
    last_focus_seq_by_address: AddressTable<u64>,
    mru_order: Vec<String>,
    monitor_map: HashMap<i32, String>,
    last_monitor_refresh: Option<Instant>,
    last_gc_addresses: AddressSet,
    thumbnail_states: AddressTable<ThumbnailState>,
    in_flight_thumbnail_jobs: PairSet,
}

impl View for BackendState {
    type V = BackendView;

    closed spec fn view(&self) -> BackendView {
        BackendView {
            revision: self.revision,
            focus_seq: self.focus_seq,
            last_emitted: match self.last_emitted {
                Some(c) => Some(c@),
                None => None,
            },
            last_successful_items: windows_view(self.last_successful_items@),
            last_status: self.last_status,
            last_active: match self.last_active_state {
                Some(s) => Some((s.address@, s.monitor_name@)),
                None => None,
            },
            focus_seqs: self.last_focus_seq_by_address@,
            mru_order: strings_view(self.mru_order@),
            monitors: Map::new(
                |k: i32| self.monitor_map@.contains_key(k),
                |k: i32| self.monitor_map@[k]@,
            ),
            monitors_fetched: self.last_monitor_refresh is Some,
            last_gc_addresses: self.last_gc_addresses@,
            thumbnail_states: self.thumbnail_states@,
            in_flight: self.in_flight_thumbnail_jobs@,
        }
    }
}

proof fn lemma_promote(pre: BackendView, a: Seq<char>)
    requires
        mru_consistent(pre),
        pre.focus_seq < u64::MAX,
    ensures
        ({
            let n = (pre.focus_seq + 1) as u64;
            mru_consistent(
                BackendView {
                    focus_seq: n,
                    focus_seqs: pre.focus_seqs.insert(a, n),
                    mru_order: mru_promote(pre.mru_order, a),
                    ..pre
                },
            )
        }),
{
    let n = (pre.focus_seq + 1) as u64;
    let old_mru = pre.mru_order;
    let rest = if old_mru.contains(a) {
        old_mru.remove(old_mru.index_of(a))
    } else {
        old_mru
    };
    let new_mru = mru_promote(old_mru, a);
    let seqs = pre.focus_seqs.insert(a, n);
    assert(new_mru == seq![a] + rest);
    // Each element of `rest` comes from `old_mru` at an index that grows with its position.
    let ghost pos = |k: int|
        if old_mru.contains(a) && k >= old_mru.index_of(a) {
            k + 1
        } else {
            k
        };
    assert forall|k: int| 0 <= k < rest.len() implies 0 <= pos(k) < old_mru.len() && #[trigger] rest[k]
        == old_mru[pos(k)] && rest[k] != a by {
        if old_mru.contains(a) {
            let ia = old_mru.index_of(a);
            assert(old_mru[ia] == a);
            if k >= ia {
                assert(pos(k) != ia);
            } else {
                assert(k != ia);
            }
        } else {
            assert(old_mru[k] != a);
        }
    }
    assert forall|i: int, j: int|
        #![trigger new_mru[i], new_mru[j]]
        0 <= i < new_mru.len() && 0 <= j < new_mru.len() && i != j implies new_mru[i]
        != new_mru[j] by {
        if i > 0 && j > 0 {
            assert(new_mru[i] == rest[i - 1]);
            assert(new_mru[j] == rest[j - 1]);
            assert(pos(i - 1) != pos(j - 1));
        } else if i == 0 {
            assert(new_mru[j] == rest[j - 1]);
        } else {
            assert(new_mru[i] == rest[i - 1]);
        }
    }
    assert forall|x: Seq<char>| new_mru.to_set().contains(x) == seqs.dom().contains(x) by {
        if new_mru.contains(x) {
            let k = choose|k: int| 0 <= k < new_mru.len() && new_mru[k] == x;
            if k > 0 {
                assert(new_mru[k] == rest[k - 1]);
                assert(old_mru.contains(x));
                assert(old_mru.to_set().contains(x));
            }
        }
        if seqs.dom().contains(x) && x != a {
            assert(pre.focus_seqs.dom().contains(x));
            assert(old_mru.to_set().contains(x));
            let m = choose|m: int| 0 <= m < old_mru.len() && old_mru[m] == x;
            let k = if old_mru.contains(a) && m > old_mru.index_of(a) {
                m - 1
            } else {
                m
            };
            if old_mru.contains(a) {
                assert(m != old_mru.index_of(a));
            }
            assert(pos(k) == m);
            assert(new_mru[k + 1] == x);
        }
        if x == a {
            assert(new_mru[0] == a);
        }
    }
    assert(new_mru.to_set() =~= seqs.dom());
    assert forall|i: int, j: int|
        #![trigger new_mru[i], new_mru[j]]
        0 <= i < j < new_mru.len() implies seqs[new_mru[i]] > seqs[new_mru[j]] by {
        assert(new_mru[j] == rest[j - 1]);
        assert(old_mru[pos(j - 1)] == rest[j - 1]);
        assert(pre.focus_seqs.contains_key(old_mru[pos(j - 1)])) by {
            assert(old_mru.to_set().contains(old_mru[pos(j - 1)]));
        }
        if i > 0 {
            assert(new_mru[i] == rest[i - 1]);
            assert(old_mru[pos(i - 1)] == rest[i - 1]);
            assert(pos(i - 1) < pos(j - 1));
        }
    }
}

/// Index of the first element of `v` equal to `a`.
pub fn position_of(v: &Vec<String>, a: &String) -> (found: Option<usize>)
    ensures
        match found {
            Some(k) => k < v@.len() && v@[k as int]@ == a@ && forall|j: int|
                0 <= j < k ==> v@[j]@ != a@,
            None => !strings_view(v@).contains(a@),
        },
{
    let mut i: usize = 0;
    while i < v.len()
        invariant
            i <= v@.len(),
            forall|j: int| 0 <= j < i ==> v@[j]@ != a@,
        decreases v@.len() - i,
    {
        if v[i] == *a {
            return Some(i);
        }
        i = i + 1;
    }
    assert forall|j: int| 0 <= j < v@.len() implies strings_view(v@)[j] != a@ by {}
    None
}

/// Recording a newly active window keeps the most-recently-used order
/// consistent.
pub proof fn lemma_registered_consistent(pre: BackendView, a: Seq<char>)
    requires
        mru_consistent(pre),
        pre.focus_seq < u64::MAX,
    ensures
        mru_consistent(registered(pre, a)),
{
    if !(a.len() == 0 || (pre.last_active matches Some(s) && s.0 == a)) {
        lemma_promote(pre, a);
    }
}

/// The recorded status is the status of the last emitted content, and
/// `Loading` before anything was emitted.
pub open spec fn status_consistent(v: BackendView) -> bool {
    match v.last_emitted {
        Some(c) => v.last_status == c.status,
        None => v.last_status == UiStatus::Loading,
    }
}

impl BackendState {
    /// Internal consistency: the containers hold no duplicates, the
    /// most-recently-used order matches the focus numbers, and the recorded
    /// status is that of the last emitted content.
    pub closed spec fn wf(&self) -> bool {
        &&& self.last_focus_seq_by_address.wf()
        &&& self.last_gc_addresses.wf()
        &&& self.thumbnail_states.wf()
        &&& self.in_flight_thumbnail_jobs.wf()
        &&& mru_consistent(self@)
        &&& status_consistent(self@)
    }

    /// A well-formed state has a consistent most-recently-used order, and
    /// its recorded status is that of the last emitted content.
    pub proof fn lemma_wf_consistent(&self)
        requires
            self.wf(),
        ensures
            mru_consistent(self@),
            status_consistent(self@),
    {
    }

    /// The state before anything was observed.
    pub fn new() -> (state: Self)
        ensures
            state.wf(),
            state@.revision == 0,
            state@.focus_seq == 0,
            state@.last_emitted is None,
            state@.last_successful_items.len() == 0,
            state@.last_status == UiStatus::Loading,
            state@.last_active is None,
            state@.focus_seqs == Map::<Seq<char>, u64>::empty(),
            state@.mru_order.len() == 0,
            state@.monitors == Map::<i32, Seq<char>>::empty(),
            !state@.monitors_fetched,
            state@.last_gc_addresses == Set::<Seq<char>>::empty(),
            state@.thumbnail_states == Map::<Seq<char>, ThumbnailState>::empty(),
            state@.in_flight == Set::<(Seq<char>, Seq<char>)>::empty(),
    {
        let state = BackendState {
            revision: 0,
            focus_seq: 0,
            last_emitted: None,
            last_successful_items: Vec::new(),
            last_status: UiStatus::Loading,
            last_active_state: None,
            last_focus_seq_by_address: AddressTable::new(),
            mru_order: Vec::new(),
            monitor_map: HashMap::new(),
            last_monitor_refresh: None,
            last_gc_addresses: AddressSet::new(),
            thumbnail_states: AddressTable::new(),
            in_flight_thumbnail_jobs: PairSet::new(),
        };
        assert(state@.mru_order.to_set() =~= Set::<Seq<char>>::empty());
        assert(state@.monitors =~= Map::<i32, Seq<char>>::empty());
        state
    }

    /// The focus counter.
    pub fn focus_counter(&self) -> (n: u64)
        ensures
            n == self@.focus_seq,
    {
        self.focus_seq
    }

    /// The addresses in most-recently-used order.
    pub fn mru_addresses(&self) -> (order: Vec<String>)
        ensures
            strings_view(order@) == self@.mru_order,
    {
        let mut out: Vec<String> = Vec::new();
        let mut i: usize = 0;
        while i < self.mru_order.len()
            invariant
                i <= self.mru_order@.len(),
                out@.len() == i,
                forall|j: int| 0 <= j < i ==> out@[j]@ == self.mru_order@[j]@,
            decreases self.mru_order@.len() - i,
        {
            out.push(self.mru_order[i].clone());
            i = i + 1;
        }
        assert(strings_view(out@) =~= self@.mru_order);
        out
    }

    /// The number of snapshots emitted so far.
    pub fn revision(&self) -> (n: u64)
        ensures
            n == self@.revision,
    {
        self.revision
    }

    /// Records `address` as the most recently focused window, unless it is
    /// empty or already the active window.
    pub fn register_active_window(&mut self, address: &str)
        requires
            old(self).wf(),
            address@.len() > 0 && is_new_active(old(self)@, address@) ==> old(self)@.focus_seq < u64::MAX,
        ensures
            final(self).wf(),
            final(self)@ == registered(old(self)@, address@),
    {
        if address.is_empty() {
            return;
        }
        let address = String::from_str(address);
        match &self.last_active_state {
            Some(state) => {
                if state.address == address {
                    return;
                }
            },
            None => {},
        }
        let ghost pre = self@;
        proof {
            lemma_promote(pre, address@);
        }
        self.focus_seq = self.focus_seq + 1;
        self.last_focus_seq_by_address.insert(address.clone(), self.focus_seq);
        let found = position_of(&self.mru_order, &address);
        let ghost before = strings_view(self.mru_order@);
        match found {
            Some(k) => {
                assert(before[k as int] == address@);
                assert(before.contains(address@));
                assert(before.index_of(address@) == k) by {
                    let w = before.index_of(address@);
                    assert(before[w] == address@);
                }
                self.mru_order.remove(k);
                assert(strings_view(self.mru_order@) =~= before.remove(k as int));
            },
            None => {},
        }
        let ghost middle = strings_view(self.mru_order@);
        self.mru_order.insert(0, address);
        assert(strings_view(self.mru_order@) =~= seq![address@] + middle);
        assert(self@ =~= registered(pre, address@));
    }

    /// Records that the compositor reports `address` on `monitor_name` as
    /// active. Returns the thumbnail job of the previously active window
    /// when the active window changed.
    pub fn handle_active_transition(&mut self, address: String, monitor_name: String) -> (job:
        Option<ThumbnailJob>)
        requires
            old(self).wf(),
            address@.len() > 0 && is_new_active(old(self)@, address@) ==> old(self)@.focus_seq < u64::MAX,
        ensures
            final(self).wf(),
            final(self)@ == transitioned(old(self)@, address@, monitor_name@),
            job_view(job) == transition_job(old(self)@, address@),
    {
        if address.as_str().is_empty() {
            return None;
        }
        let previous = match &self.last_active_state {
            Some(state) => Some(ActiveState {
                address: state.address.clone(),
                monitor_name: state.monitor_name.clone(),
            }),
            None => None,
        };
        let changed = match &previous {
            Some(state) => state.address != address,
            None => true,
        };
        if changed {
            self.register_active_window(address.as_str());
        }
        self.last_active_state = Some(ActiveState { address, monitor_name });
        if changed {
            return match previous {
                Some(state) => Some(
                    ThumbnailJob { address: state.address, monitor_name: state.monitor_name },
                ),
                None => None,
            };
        }
        None
    }
}


/// Whether the monitor names are due for a refetch: none are cached, they
/// were never fetched, or `elapsed_secs` since the last fetch reached the
/// refresh period.
pub open spec fn monitor_refresh_due_spec(cache_empty: bool, elapsed_secs: Option<u64>) -> bool {
    cache_empty || match elapsed_secs {
        Some(e) => e >= MONITOR_REFRESH_SECS,
        None => true,
    }
}

/// Monitor names keyed by id, where a later record with the same id
/// replaces an earlier one.
pub open spec fn monitor_map_of(monitors: Seq<HyprctlMonitor>) -> Map<i32, Seq<char>>
    decreases monitors.len(),
{
    if monitors.len() == 0 {
        Map::empty()
    } else {
        monitor_map_of(monitors.drop_last()).insert(monitors.last().id, monitors.last().name@)
    }
}

/// State after a monitor fetch that returned `monitors` (`None` when the
/// fetch failed).
pub open spec fn monitors_refreshed(pre: BackendView, monitors: Option<Seq<HyprctlMonitor>>) -> BackendView {
    match monitors {
        Some(list) => BackendView { monitors: monitor_map_of(list), monitors_fetched: true, ..pre },
        None => pre,
    }
}

/// The address selected by default: the previous window when there are at
/// least two, else the only window, else none.
pub open spec fn default_selection(items: Seq<WindowView>) -> Option<Seq<char>> {
    if items.len() >= 2 {
        Some(items[1].address)
    } else if items.len() == 1 {
        Some(items[0].address)
    } else {
        None
    }
}

/// Whether a thumbnail job for `address` is in flight, on any monitor.
pub open spec fn job_in_flight(v: BackendView, address: Seq<char>) -> bool {
    exists|m: Seq<char>| v.in_flight.contains((address, m))
}

/// The preview state of `address`, given whether its preview file exists.
pub open spec fn resolved_thumbnail(v: BackendView, address: Seq<char>, file_exists: bool) -> ThumbnailState {
    if job_in_flight(v, address) {
        ThumbnailState::Pending
    } else if v.thumbnail_states.contains_key(address) && v.thumbnail_states[address]
        == ThumbnailState::Failed {
        ThumbnailState::Failed
    } else if file_exists {
        ThumbnailState::Ready
    } else if v.thumbnail_states.contains_key(address) {
        v.thumbnail_states[address]
    } else {
        ThumbnailState::Missing
    }
}

/// `t` is the preview state of `address` for the file being present or
/// for it being absent.
pub open spec fn thumbnail_possible(v: BackendView, address: Seq<char>, t: ThumbnailState) -> bool {
    t == resolved_thumbnail(v, address, true) || t == resolved_thumbnail(v, address, false)
}

/// State after the metadata of windows outside `active` is dropped.
pub open spec fn retained(pre: BackendView, active: Set<Seq<char>>) -> BackendView {
    BackendView {
        mru_order: pre.mru_order.filter(|a: Seq<char>| active.contains(a)),
        focus_seqs: pre.focus_seqs.restrict(active),
        thumbnail_states: pre.thumbnail_states.restrict(active),
        ..pre
    }
}

/// The state a worker's report leaves behind.
pub open spec fn thumbnail_result_applied(pre: BackendView, address: Seq<char>, monitor: Seq<char>, success: bool) -> BackendView {
    let next = if success {
        ThumbnailState::Ready
    } else {
        ThumbnailState::Failed
    };
    let cleared = BackendView { in_flight: pre.in_flight.remove((address, monitor)), ..pre };
    if pre.thumbnail_states.contains_key(address) && pre.thumbnail_states[address] == next {
        cleared
    } else {
        BackendView { thumbnail_states: pre.thumbnail_states.insert(address, next), ..cleared }
    }
}

/// Whether the worker's report changes the recorded preview state.
pub open spec fn thumbnail_result_changes(pre: BackendView, address: Seq<char>, success: bool) -> bool {
    let next = if success {
        ThumbnailState::Ready
    } else {
        ThumbnailState::Failed
    };
    !(pre.thumbnail_states.contains_key(address) && pre.thumbnail_states[address] == next)
}

/// State after a thumbnail job for (`a`, `m`) is accepted.
pub open spec fn job_begun(pre: BackendView, a: Seq<char>, m: Seq<char>) -> BackendView {
    BackendView {
        in_flight: pre.in_flight.insert((a, m)),
        thumbnail_states: pre.thumbnail_states.insert(a, ThumbnailState::Pending),
        ..pre
    }
}

/// State after the job for (`a`, `m`) could not be handed to the worker.
pub open spec fn job_send_failed(pre: BackendView, a: Seq<char>, m: Seq<char>) -> BackendView {
    BackendView {
        in_flight: pre.in_flight.remove((a, m)),
        thumbnail_states: pre.thumbnail_states.insert(a, ThumbnailState::Failed),
        ..pre
    }
}

/// State after a clean-up for `active` was started.
pub open spec fn gc_recorded(pre: BackendView, active: Set<Seq<char>>) -> BackendView {
    BackendView { last_gc_addresses: active, ..pre }
}

/// Whether the monitor names are due for a refetch, from whether the cache
/// is empty and the whole seconds since the last fetch.
pub fn monitor_refresh_due(cache_empty: bool, elapsed_secs: Option<u64>) -> (due: bool)
    ensures
        due == monitor_refresh_due_spec(cache_empty, elapsed_secs),
{
    cache_empty || match elapsed_secs {
        Some(e) => e >= MONITOR_REFRESH_SECS,
        None => true,
    }
}

/// Calls `std::path::Path::exists` on `path`. What is on disk is not
/// stated.
#[verifier::external_body]
fn file_exists(path: &str) -> bool {
    std::path::Path::new(path).exists()
}

impl BackendState {
    /// Whole seconds since the monitor names were last fetched, or `None`
    /// when they never were. How many seconds have passed depends on the
    /// clock and is not stated.
    pub fn monitor_cache_age(&self) -> (age: Option<u64>)
        ensures
            age is None <==> !self@.monitors_fetched,
    {
        match &self.last_monitor_refresh {
            Some(moment) => Some(whole_seconds_since(moment)),
            None => None,
        }
    }

    /// Whether the monitor names are due for a refetch when the cache is
    /// `age` seconds old (`None`: never fetched).
    pub fn monitors_due(&self, age: Option<u64>) -> (due: bool)
        ensures
            due == monitor_refresh_due_spec(self@.monitors.dom().len() == 0, age),
    {
        let empty = self.monitor_map.is_empty();
        proof {
            assert(self.monitor_map@.dom() == self@.monitors.dom());
            if !empty {
                assert(self@.monitors.dom().len() != 0) by {
                    let k = self.monitor_map@.dom().choose();
                    assert(self.monitor_map@.dom().contains(k));
                }
            }
        }
        monitor_refresh_due(empty, age)
    }

    /// Whether the monitor names should be fetched again now: always when
    /// none are cached or they were never fetched; otherwise when the cache,
    /// read off the clock, is at least `MONITOR_REFRESH_SECS` old (stated by
    /// [`BackendState::monitors_due`] for a given age).
    pub fn should_refresh_monitors(&self) -> (due: bool)
        ensures
            self@.monitors.dom().len() == 0 || !self@.monitors_fetched ==> due,
    {
        let age = self.monitor_cache_age();
        self.monitors_due(age)
    }

    /// Replaces the monitor names with those of a fetch (`None` when the fetch
    /// failed); returns whether the fetch succeeded.
    pub fn refresh_monitors(&mut self, monitors: Option<Vec<HyprctlMonitor>>) -> (ok: bool)
        requires
            old(self).wf(),
        ensures
            final(self).wf(),
            ok == monitors is Some,
            final(self)@ == monitors_refreshed(old(self)@, match monitors {
                Some(v) => Some(v@),
                None => None,
            }),
    {
        match monitors {
            None => false,
            Some(list) => {
                let mut map: HashMap<i32, String> = HashMap::new();
                let mut i: usize = 0;
                while i < list.len()
                    invariant
                        i <= list@.len(),
                        Map::new(|k: i32| map@.contains_key(k), |k: i32| map@[k]@)
                            == monitor_map_of(list@.take(i as int)),
                    decreases list@.len() - i,
                {
                    let ghost prev = list@.take(i as int);
                    map.insert(list[i].id, list[i].name.clone());
                    assert(list@.take(i as int + 1).drop_last() =~= prev);
                    assert(Map::new(|k: i32| map@.contains_key(k), |k: i32| map@[k]@)
                        =~= monitor_map_of(list@.take(i as int + 1)));
                    i = i + 1;
                }
                assert(list@.take(list@.len() as int) =~= list@);
                self.monitor_map = map;
                self.last_monitor_refresh = Some(instant_now());
                true
            },
        }
    }

    /// The cached name of monitor `id`.
    pub fn monitor_name(&self, id: i32) -> (name: Option<String>)
        ensures
            opt_chars(name) == (if self@.monitors.contains_key(id) {
                Some(self@.monitors[id])
            } else {
                None::<Seq<char>>
            }),
    {
        match self.monitor_map.get(&id) {
            Some(name) => Some(name.clone()),
            None => None,
        }
    }

    /// The address selected by default among `items`.
    pub fn current_selected_address(&self, items: &[WindowData]) -> (selected: Option<String>)
        ensures
            opt_chars(selected) == default_selection(windows_view(items@)),
    {
        if items.len() >= 2 {
            return Some(items[1].address.clone());
        }
        if items.len() == 1 {
            Some(items[0].address.clone())
        } else {
            None
        }
    }

    /// The preview state of `address`, given whether its preview file exists.
    pub fn resolve_thumbnail_state_with(&self, address: &str, file_exists: bool) -> (t: ThumbnailState)
        requires
            self.wf(),
        ensures
            t == resolved_thumbnail(self@, address@, file_exists),
    {
        let address = String::from_str(address);
        if self.in_flight_thumbnail_jobs.has_first(&address) {
            proof {
                let m = choose|m: Seq<char>| self.in_flight_thumbnail_jobs@.contains((address@, m));
                assert(self@.in_flight.contains((address@, m)));
            }
            return ThumbnailState::Pending;
        }
        let recorded = self.thumbnail_states.get(&address);
        if recorded == Some(ThumbnailState::Failed) {
            return ThumbnailState::Failed;
        }
        if file_exists {
            return ThumbnailState::Ready;
        }
        match recorded {
            Some(t) => t,
            None => ThumbnailState::Missing,
        }
    }

    /// The preview state of `address`; whether its preview file exists is
    /// looked up on disk.
    pub fn resolve_thumbnail_state(&self, address: &str) -> (t: ThumbnailState)
        requires
            self.wf(),
        ensures
            thumbnail_possible(self@, address@, t),
    {
        let path = crate::paths::thumbnail_path(address);
        let exists = file_exists(path.as_str());
        self.resolve_thumbnail_state_with(address, exists)
    }

    /// Drops the order, focus numbers and preview states of windows that are
    /// not in `active_addresses`.
    pub fn retain_active_metadata(&mut self, active_addresses: &AddressSet)
        requires
            old(self).wf(),
            active_addresses.wf(),
        ensures
            final(self).wf(),
            final(self)@ == retained(old(self)@, active_addresses@),
    {
        let ghost pre = self@;
        let ghost keep = active_addresses@;
        let ghost pred = |a: Seq<char>| keep.contains(a);
        let mut kept: Vec<String> = Vec::new();
        let ghost mut idx: Seq<int> = Seq::empty();
        let mut i: usize = 0;
        while i < self.mru_order.len()
            invariant
                i <= self.mru_order@.len(),
                pre == self@,
                keep == active_addresses@,
                pred == (|a: Seq<char>| keep.contains(a)),
                strings_view(kept@) == strings_view(self.mru_order@).take(i as int).filter(pred),
                idx.len() == kept@.len(),
                forall|k: int| 0 <= k < idx.len() ==> 0 <= #[trigger] idx[k] < i,
                forall|k: int|
                    0 <= k < idx.len() ==> kept@[k]@ == strings_view(self.mru_order@)[#[trigger] idx[k]],
                forall|k: int, l: int| 0 <= k < l < idx.len() ==> #[trigger] idx[k] < #[trigger] idx[l],
            decreases self.mru_order@.len() - i,
        {
            let ghost all = strings_view(self.mru_order@);
            assert(all.take(i as int + 1) =~= all.take(i as int).push(all[i as int]));
            proof {
                all.take(i as int).lemma_filter_push(all[i as int], pred);
            }
            assert(all[i as int] == self.mru_order@[i as int]@);
            if active_addresses.contains(&self.mru_order[i]) {
                kept.push(self.mru_order[i].clone());
                proof {
                    idx = idx.push(i as int);
                }
                assert(strings_view(kept@) =~= all.take(i as int).filter(pred).push(all[i as int]));
            }
            i = i + 1;
        }
        let ghost all = strings_view(self.mru_order@);
        assert(all.take(all.len() as int) =~= all);
        self.mru_order = kept;
        self.last_focus_seq_by_address.retain_keys(active_addresses);
        self.thumbnail_states.retain_keys(active_addresses);
        let ghost post = self@;
        let ghost nm = post.mru_order;
        proof {
            assert forall|k: int, l: int|
                0 <= k < nm.len() && 0 <= l < nm.len() && k != l implies nm[k] != nm[l] by {
                assert(nm[k] == all[idx[k]]);
                assert(nm[l] == all[idx[l]]);
                if k < l {
                    assert(idx[k] < idx[l]);
                } else {
                    assert(idx[l] < idx[k]);
                }
            }
            assert forall|x: Seq<char>| nm.to_set().contains(x) == post.focus_seqs.dom().contains(x) by {
                if nm.contains(x) {
                    all.lemma_filter_contains_rev(pred, x);
                    let k = choose|k: int| 0 <= k < nm.len() && nm[k] == x;
                    assert(all[idx[k]] == x);
                    assert(all.to_set().contains(x));
                    assert(pred(x)) by {
                        all.lemma_filter_pred(pred, k);
                    }
                }
                if post.focus_seqs.dom().contains(x) {
                    assert(pre.focus_seqs.dom().contains(x));
                    assert(all.to_set().contains(x));
                    let m = choose|m: int| 0 <= m < all.len() && all[m] == x;
                    all.lemma_filter_contains(pred, m);
                }
            }
            assert(nm.to_set() =~= post.focus_seqs.dom());
            assert forall|k: int, l: int|
                #![trigger nm[k], nm[l]]
                0 <= k < l < nm.len() implies post.focus_seqs[nm[k]] > post.focus_seqs[nm[l]] by {
                assert(nm[k] == all[idx[k]]);
                assert(nm[l] == all[idx[l]]);
                assert(idx[k] < idx[l]);
                assert(all[idx[k]] == all[idx[k]]);
                assert(nm.to_set().contains(nm[k]));
                assert(nm.to_set().contains(nm[l]));
            }
        }
        assert(post =~= retained(pre, keep));
    }

    /// Records a worker's report; returns whether the recorded preview state
    /// of the window changed.
    pub fn apply_thumbnail_result(&mut self, result: ThumbnailResult) -> (changed: bool)
        requires
            old(self).wf(),
        ensures
            final(self).wf(),
            changed == thumbnail_result_changes(old(self)@, result.address@, result.success),
            final(self)@ == thumbnail_result_applied(
                old(self)@,
                result.address@,
                result.monitor_name@,
                result.success,
            ),
    {
        let ghost pre = self@;
        self.in_flight_thumbnail_jobs.remove(&result.address, &result.monitor_name);
        let next = if result.success {
            ThumbnailState::Ready
        } else {
            ThumbnailState::Failed
        };
        if self.thumbnail_states.get(&result.address) == Some(next) {
            assert(self@ =~= thumbnail_result_applied(pre, result.address@, result.monitor_name@, result.success));
            return false;
        }
        self.thumbnail_states.insert(result.address, next);
        assert(self@ =~= thumbnail_result_applied(pre, result.address@, result.monitor_name@, result.success));
        true
    }

    /// Marks `job` as in flight and its preview as pending; returns false,
    /// changing nothing, when the same job is already in flight.
    pub fn begin_thumbnail_job(&mut self, job: &ThumbnailJob) -> (queued: bool)
        requires
            old(self).wf(),
        ensures
            final(self).wf(),
            queued == !old(self)@.in_flight.contains((job.address@, job.monitor_name@)),
            final(self)@ == (if queued {
                job_begun(old(self)@, job.address@, job.monitor_name@)
            } else {
                old(self)@
            }),
    {
        let ghost pre = self@;
        if !self.in_flight_thumbnail_jobs.insert(job.address.clone(), job.monitor_name.clone()) {
            assert(self.in_flight_thumbnail_jobs@ =~= pre.in_flight);
            assert(self@ =~= pre);
            return false;
        }
        self.thumbnail_states.insert(job.address.clone(), ThumbnailState::Pending);
        true
    }

    /// Undoes [`Self::begin_thumbnail_job`] after the job could not be handed
    /// to the worker, and marks the preview as failed.
    pub fn thumbnail_job_send_failed(&mut self, job: &ThumbnailJob)
        requires
            old(self).wf(),
        ensures
            final(self).wf(),
            final(self)@ == job_send_failed(old(self)@, job.address@, job.monitor_name@),
    {
        self.in_flight_thumbnail_jobs.remove(&job.address, &job.monitor_name);
        self.thumbnail_states.insert(job.address.clone(), ThumbnailState::Failed);
    }

    /// Whether a preview clean-up should run for `active_addresses`: only
    /// when the set differs from the one of the last clean-up.
    pub fn gc_needed(&self, active_addresses: &AddressSet) -> (needed: bool)
        ensures
            needed == (active_addresses@ != self@.last_gc_addresses),
    {
        !active_addresses.same_members(&self.last_gc_addresses)
    }

    /// Records that a clean-up for `active_addresses` was started.
    pub fn record_gc_started(&mut self, active_addresses: AddressSet)
        requires
            old(self).wf(),
            active_addresses.wf(),
        ensures
            final(self).wf(),
            final(self)@ == gc_recorded(old(self)@, active_addresses@),
    {
        self.last_gc_addresses = active_addresses;
    }
}

/// What a snapshot shows, without its revision.
pub open spec fn content_of(s: SnapshotView) -> ContentView {
    ContentView { items: s.items, selected_address: s.selected_address, status: s.status }
}

/// The content shown for `items` with `status`: the items in
/// most-recently-used order and the default selection among them.
pub open spec fn snapshot_content(items: Seq<WindowView>, status: UiStatus) -> ContentView {
    let sorted = stable_sort(items);
    ContentView { items: sorted, selected_address: default_selection(sorted), status }
}

/// The snapshot that shows `c` under revision `revision`.
pub open spec fn snapshot_of(c: ContentView, revision: u64) -> SnapshotView {
    SnapshotView { items: c.items, selected_address: c.selected_address, status: c.status, revision }
}

/// State after `c` is emitted.
pub open spec fn emitted(pre: BackendView, c: ContentView) -> BackendView {
    BackendView {
        revision: (pre.revision + 1) as u64,
        last_status: c.status,
        last_emitted: Some(c),
        ..pre
    }
}

/// The optional snapshot as a mathematical value.
pub open spec fn snapshot_view(s: Option<UiSnapshot>) -> Option<SnapshotView> {
    match s {
        Some(v) => Some(v@),
        None => None,
    }
}

/// The snapshot shown before the backend has emitted anything: no items, no
/// selection, `Loading`, revision 0 (the revision of a fresh state).
pub open spec fn loading_view() -> SnapshotView {
    SnapshotView { items: Seq::empty(), selected_address: None, status: UiStatus::Loading, revision: 0 }
}

/// The snapshot shown before the backend has emitted anything.
pub fn loading_snapshot() -> (snapshot: UiSnapshot)
    ensures
        snapshot@ == loading_view(),
{
    let snapshot = UiSnapshot { items: Vec::new(), selected_address: None, status: UiStatus::Loading, revision: 0 };
    assert(snapshot@.items =~= Seq::<WindowView>::empty());
    snapshot
}

/// The outcome of emitting `items` with `status` from state `pre`: nothing,
/// when the content equals the last emitted one; else a snapshot with the
/// next revision.
pub open spec fn emit_outcome(pre: BackendView, items: Seq<WindowView>, status: UiStatus) -> (BackendView, Option<SnapshotView>) {
    let c = snapshot_content(items, status);
    if pre.last_emitted == Some(c) {
        (pre, None)
    } else {
        (emitted(pre, c), Some(snapshot_of(c, (pre.revision + 1) as u64)))
    }
}

/// The cached item `old_item` brought up to date with state `v`: its focus
/// number, whether it is active and (given the preview file) its preview.
pub open spec fn refreshed_item(v: BackendView, old_item: WindowView, new_item: WindowView) -> bool {
    let a = old_item.address;
    &&& new_item == WindowView {
        last_focus_seq: if v.focus_seqs.contains_key(a) {
            v.focus_seqs[a]
        } else {
            old_item.last_focus_seq
        },
        thumbnail_state: new_item.thumbnail_state,
        is_active: v.last_active matches Some(s) && s.0 == a,
        ..old_item
    }
    &&& thumbnail_possible(v, a, new_item.thumbnail_state)
}

impl BackendState {
    /// The focus number recorded for `address`.
    pub fn recorded_focus_seq(&self, address: &String) -> (seq: Option<u64>)
        requires
            self.wf(),
        ensures
            seq == (if self@.focus_seqs.contains_key(address@) {
                Some(self@.focus_seqs[address@])
            } else {
                None::<u64>
            }),
    {
        self.last_focus_seq_by_address.get(address)
    }

    /// The address of the last active window.
    pub fn active_address(&self) -> (address: Option<String>)
        ensures
            opt_chars(address) == (match self@.last_active {
                Some(s) => Some(s.0),
                None => None::<Seq<char>>,
            }),
    {
        match &self.last_active_state {
            Some(s) => Some(s.address.clone()),
            None => None,
        }
    }

    /// The status of the last emitted snapshot.
    pub fn last_status(&self) -> (status: UiStatus)
        ensures
            status == self@.last_status,
    {
        self.last_status
    }

    /// Remembers `items` as the last list built from a successful client fetch.
    pub fn set_last_successful_items(&mut self, items: &Vec<WindowData>)
        requires
            old(self).wf(),
        ensures
            final(self).wf(),
            final(self)@ == (BackendView { last_successful_items: windows_view(items@), ..old(self)@ }),
    {
        self.last_successful_items = duplicate_windows(items);
    }

    /// Sorts `items`, picks the default selection and returns the snapshot
    /// to send, unless it shows exactly what the last one showed.
    pub fn emit_snapshot(&mut self, items: Vec<WindowData>, status: UiStatus) -> (snapshot: Option<UiSnapshot>)
        requires
            old(self).wf(),
            old(self)@.last_emitted != Some(snapshot_content(windows_view(items@), status)) ==> old(
                self,
            )@.revision < u64::MAX,
        ensures
            final(self).wf(),
            (final(self)@, snapshot_view(snapshot)) == emit_outcome(old(self)@, windows_view(items@), status),
            final(self)@.last_emitted == Some(snapshot_content(windows_view(items@), status)),
            final(self)@.last_status == status,
    {
        let ghost c = snapshot_content(windows_view(items@), status);
        let mut items = items;
        sort_items(&mut items);
        let selected_address = self.current_selected_address(items.as_slice());
        let unchanged = match &self.last_emitted {
            Some(last) => same_windows(&last.items, &items) && same_opt_string(
                &last.selected_address,
                &selected_address,
            ) && last.status == status,
            None => false,
        };
        if unchanged {
            return None;
        }
        self.revision = self.revision + 1;
        self.last_status = status;
        self.last_emitted = Some(
            SnapshotContent {
                items: duplicate_windows(&items),
                selected_address: copy_opt_string(&selected_address),
                status,
            },
        );
        let snapshot = UiSnapshot { items, selected_address, status, revision: self.revision };
        assert(snapshot@ == snapshot_of(c, self.revision));
        Some(snapshot)
    }

    /// The last list built from a successful client fetch, brought up to date
    /// with the current focus numbers, active window and preview states.
    pub fn rebuild_cached_items(&self) -> (items: Vec<WindowData>)
        requires
            self.wf(),
        ensures
            items@.len() == self@.last_successful_items.len(),
            forall|i: int|
                0 <= i < items@.len() ==> refreshed_item(
                    self@,
                    self@.last_successful_items[i],
                    #[trigger] items@[i]@,
                ),
    {
        let mut items: Vec<WindowData> = Vec::new();
        let mut i: usize = 0;
        while i < self.last_successful_items.len()
            invariant
                self.wf(),
                i <= self.last_successful_items@.len(),
                items@.len() == i,
                forall|j: int|
                    0 <= j < i ==> refreshed_item(
                        self@,
                        self@.last_successful_items[j],
                        #[trigger] items@[j]@,
                    ),
            decreases self.last_successful_items@.len() - i,
        {
            let mut item = self.last_successful_items[i].duplicate();
            item.last_focus_seq = match self.last_focus_seq_by_address.get(&item.address) {
                Some(seq) => seq,
                None => item.last_focus_seq,
            };
            item.thumbnail_state = self.resolve_thumbnail_state(item.address.as_str());
            item.is_active = match &self.last_active_state {
                Some(active) => active.address == item.address,
                None => false,
            };
            assert(self@.last_successful_items[i as int] == self.last_successful_items@[i as int]@);
            items.push(item);
            i = i + 1;
        }
        items
    }
}
} // verus!
