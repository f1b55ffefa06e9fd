//! One refresh of the backend: from what the compositor reported to the
//! snapshot the overlay receives.
use vstd::prelude::*;
use vstd::string::*;
use crate::backend::{
    monitor_refresh_due_spec, emit_outcome, job_begun, thumbnail_result_applied, thumbnail_result_changes, job_send_failed, monitors_refreshed, refreshed_item, retained,
    snapshot_view, thumbnail_possible, transition_job, transitioned, BackendState, BackendView,
};
use crate::model::{
    clients_view, windows_view, ClientView, HyprctlActiveWindow, HyprctlClient, HyprctlMonitor,
    SnapshotView, ThumbnailJob, ThumbnailResult, ThumbnailState, UiSnapshot, UiStatus, WindowData, WindowView,
};
use crate::ordering::{sort_items, stable_sort};
use crate::table::AddressSet;

verus! {

/// Icon and class used for windows that report no class.
pub open spec fn fallback_class() -> Seq<char> {
    "application-x-executable"@
}

/// Whether client `c` is listed: it is mapped, and it has a title or is the
/// active window.
pub open spec fn client_shown(c: ClientView, active: Option<Seq<char>>) -> bool {
    c.mapped && (c.title.len() > 0 || active == Some(c.address))
}

/// The clients that are listed, in the order the compositor reported them.
pub open spec fn shown_clients(clients: Seq<ClientView>, active: Option<Seq<char>>) -> Seq<ClientView> {
    clients.filter(|c: ClientView| client_shown(c, active))
}

/// The addresses of a sequence of clients.
pub open spec fn client_addresses(clients: Seq<ClientView>) -> Set<Seq<char>> {
    clients.map_values(|c: ClientView| c.address).to_set()
}

/// The list entry for client `c` in state `v`, with preview state `t`.
pub open spec fn item_for_client(c: ClientView, active: Option<Seq<char>>, v: BackendView, t: ThumbnailState) -> WindowView {
    let class = if c.class.len() == 0 {
        fallback_class()
    } else {
        c.class
    };
    WindowView {
        address: c.address,
        title: if c.title.len() == 0 {
            class
        } else {
            c.title
        },
        class,
        is_active: active == Some(c.address),
        monitor_name: match c.monitor {
            Some(id) => if v.monitors.contains_key(id) {
                Some(v.monitors[id])
            } else {
                None
            },
            None => None,
        },
        workspace_id: c.workspace_id,
        last_focus_seq: if v.focus_seqs.contains_key(c.address) {
            v.focus_seqs[c.address]
        } else {
            0
        },
        thumbnail_state: t,
    }
}

/// `items` are the entries for the listed clients, each with a preview
/// state that matches the preview file being present or absent.
pub open spec fn items_for_clients(items: Seq<WindowView>, shown: Seq<ClientView>, active: Option<Seq<char>>, v: BackendView) -> bool {
    &&& items.len() == shown.len()
    &&& forall|i: int|
        #![trigger items[i]]
        0 <= i < items.len() ==> items[i] == item_for_client(
            shown[i],
            active,
            v,
            items[i].thumbnail_state,
        ) && thumbnail_possible(v, shown[i].address, items[i].thumbnail_state)
}

/// The optional string as characters.
pub open spec fn opt_str_view(s: Option<&str>) -> Option<Seq<char>> {
    match s {
        Some(v) => Some(v@),
        None => None,
    }
}

/// Builds the list entries for the listed clients, adds their addresses to
/// `active_addresses`, and drops the metadata of every window not in that
/// set.
pub fn build_items(
    clients: &[HyprctlClient],
    active_address: Option<&str>,
    state: &mut BackendState,
    active_addresses: &mut AddressSet,
) -> (items: Vec<WindowData>)
    requires
        old(state).wf(),
        old(active_addresses).wf(),
    ensures
        final(state).wf(),
        final(active_addresses).wf(),
        items_for_clients(
            crate::model::windows_view(items@),
            shown_clients(clients_view(clients@), opt_str_view(active_address)),
            opt_str_view(active_address),
            old(state)@,
        ),
        final(active_addresses)@ == old(active_addresses)@.union(
            client_addresses(shown_clients(clients_view(clients@), opt_str_view(active_address))),
        ),
        final(state)@ == retained(old(state)@, final(active_addresses)@),
{
    let ghost active = opt_str_view(active_address);
    let ghost pred = |c: ClientView| client_shown(c, active);
    let ghost all = clients_view(clients@);
    let ghost start = active_addresses@;
    let ghost pre = state@;
    let active_owned: Option<String> = match active_address {
        Some(a) => Some(String::from_str(a)),
        None => None,
    };
    let mut items: Vec<WindowData> = Vec::new();
    let mut i: usize = 0;
    while i < clients.len()
        invariant
            i <= clients@.len(),
            state.wf(),
            active_addresses.wf(),
            all == clients_view(clients@),
            pred == (|c: ClientView| client_shown(c, active)),
            crate::model::opt_chars(active_owned) == active,
            items_for_clients(
                crate::model::windows_view(items@),
                all.take(i as int).filter(pred),
                active,
                pre,
            ),
            state@ == pre,
            active_addresses@ == start.union(client_addresses(all.take(i as int).filter(pred))),
        decreases clients@.len() - i,
    {
        let ghost shown_before = all.take(i as int).filter(pred);
        let ghost items_before = items@;
        assert(all.take(i as int + 1) =~= all.take(i as int).push(all[i as int]));
        proof {
            all.take(i as int).lemma_filter_push(all[i as int], pred);
        }
        let client = &clients[i];
        assert(all[i as int] == client@);
        let is_active = match &active_owned {
            Some(a) => *a == client.address,
            None => false,
        };
        if client.mapped && (!client.title.as_str().is_empty() || is_active) {
            active_addresses.insert(client.address.clone());
            let fallback_class = if client.class.as_str().is_empty() {
                String::from_str("application-x-executable")
            } else {
                client.class.clone()
            };
            let title = if client.title.as_str().is_empty() {
                fallback_class.clone()
            } else {
                client.title.clone()
            };
            let monitor_name = match client.monitor {
                Some(id) => state.monitor_name(id),
                None => None,
            };
            let workspace_id = match &client.workspace {
                Some(w) => Some(w.id),
                None => None,
            };
            let last_focus_seq = match state.recorded_focus_seq(&client.address) {
                Some(seq) => seq,
                None => 0,
            };
            let thumbnail_state = state.resolve_thumbnail_state(client.address.as_str());
            items.push(
                WindowData {
                    address: client.address.clone(),
                    title,
                    class: fallback_class,
                    is_active,
                    monitor_name,
                    workspace_id,
                    last_focus_seq,
                    thumbnail_state,
                },
            );
            let ghost shown_now = all.take(i as int + 1).filter(pred);
            assert(shown_now == shown_before.push(client@));
            assert(shown_now.map_values(|c: ClientView| c.address) =~= shown_before.map_values(
                |c: ClientView| c.address,
            ).push(client@.address));
            assert(client_addresses(shown_now) =~= client_addresses(shown_before).insert(client@.address)) by {
                assert forall|x: Seq<char>| #![trigger client_addresses(shown_now).contains(x)]
                    client_addresses(shown_now).contains(x) == client_addresses(shown_before).insert(
                        client@.address,
                    ).contains(x) by {
                    let m_now = shown_now.map_values(|c: ClientView| c.address);
                    let m_before = shown_before.map_values(|c: ClientView| c.address);
                    if m_before.contains(x) {
                        let k = choose|k: int| 0 <= k < m_before.len() && m_before[k] == x;
                        assert(m_now[k] == x);
                    }
                    if m_now.contains(x) {
                        let k = choose|k: int| 0 <= k < m_now.len() && m_now[k] == x;
                        if k < m_before.len() {
                            assert(m_before[k] == x);
                        }
                    }
                    if x == client@.address {
                        assert(m_now[m_before.len() as int] == x);
                    }
                }
            }
            assert(crate::model::windows_view(items@) =~= crate::model::windows_view(items_before).push(
                items@[items@.len() - 1]@,
            ));
        } else {
            assert(!pred(client@));
        }
        i = i + 1;
    }
    assert(all.take(clients@.len() as int) =~= all);
    state.retain_active_metadata(active_addresses);
    items
}


/// The status of a refresh: degraded when some fetch failed, else empty or
/// ready by whether any window is listed.
pub open spec fn status_for(degraded: bool, empty: bool) -> UiStatus {
    if degraded {
        UiStatus::BackendDegraded
    } else if empty {
        UiStatus::Empty
    } else {
        UiStatus::Ready
    }
}

/// The address of the active window recorded in `v`.
pub open spec fn active_of(v: BackendView) -> Option<Seq<char>> {
    match v.last_active {
        Some(s) => Some(s.0),
        None => None,
    }
}

/// `items` are the cached items of `v` brought up to date.
pub open spec fn cached_items_refreshed(v: BackendView, items: Seq<WindowView>) -> bool {
    &&& items.len() == v.last_successful_items.len()
    &&& forall|i: int|
        #![trigger items[i]]
        0 <= i < items.len() ==> refreshed_item(v, v.last_successful_items[i], items[i])
}

/// Where a refresh waits for the app.
pub enum RefreshStage {
    /// Waits for the monitor names fetched because the cache was stale.
    InitialMonitors,
    /// Waits for the monitor names fetched because the active window's
    /// monitor was not cached.
    ActiveMonitor,
    /// Waits for the thumbnail job to be handed to the worker.
    ThumbnailSend(ThumbnailJob),
    /// Nothing left to do.
    Done,
}

/// Mathematical value of a [`RefreshStage`].
pub enum StageView {
    InitialMonitors,
    ActiveMonitor,
    ThumbnailSend((Seq<char>, Seq<char>)),
    Done,
}

/// A refresh in progress: what `clients -j` and `activewindow -j` returned,
/// whether some fetch failed, and the stage.
pub struct RefreshCycle {
    clients: Option<Vec<HyprctlClient>>,
    active: Option<HyprctlActiveWindow>,
    degraded: bool,
    stage: RefreshStage,
}

/// Mathematical value of a [`RefreshCycle`].
pub struct CycleView {
    pub clients: Option<Seq<ClientView>>,
    /// Address and monitor id of the active window.
    pub active: Option<(Seq<char>, i32)>,
    pub degraded: bool,
    pub stage: StageView,
}

impl View for RefreshCycle {
    type V = CycleView;

    closed spec fn view(&self) -> CycleView {
        CycleView {
            clients: match self.clients {
                Some(c) => Some(clients_view(c@)),
                None => None,
            },
            active: match self.active {
                Some(a) => Some((a.address@, a.monitor)),
                None => None,
            },
            degraded: self.degraded,
            stage: match self.stage {
                RefreshStage::InitialMonitors => StageView::InitialMonitors,
                RefreshStage::ActiveMonitor => StageView::ActiveMonitor,
                RefreshStage::ThumbnailSend(j) => StageView::ThumbnailSend((j.address@, j.monitor_name@)),
                RefreshStage::Done => StageView::Done,
            },
        }
    }
}

/// The cycle in stage `stage`, with `degraded` as given.
pub open spec fn cycle_at(c: CycleView, degraded: bool, stage: StageView) -> CycleView {
    CycleView { degraded, stage, ..c }
}

/// What the app is asked to do next.
pub enum RefreshAction {
    /// Run `hyprctl monitors -j` and resume with the result.
    FetchMonitors,
    /// Hand the job to the thumbnail worker and resume with whether that
    /// worked.
    SendThumbnailJob(ThumbnailJob),
    /// The refresh is over: send the snapshot, if any, and start a preview
    /// clean-up for the addresses, if any.
    Finished(RefreshOutcome),
}

/// The result of a finished refresh.
pub struct RefreshOutcome {
    pub snapshot: Option<UiSnapshot>,
    pub gc_addresses: Option<AddressSet>,
}

/// What the app reports back.
pub enum RefreshEvent {
    /// Result of `hyprctl monitors -j` (`None` when it failed).
    MonitorsFetched(Option<Vec<HyprctlMonitor>>),
    /// Whether the thumbnail job reached the worker.
    ThumbnailJobSent(bool),
}

/// A clean-up set handed out by a finished refresh holds no duplicates.
pub open spec fn action_wf(act: &RefreshAction) -> bool {
    match act {
        RefreshAction::Finished(o) => match &o.gc_addresses {
            Some(a) => a.wf(),
            None => true,
        },
        _ => true,
    }
}

/// Mathematical value of a [`RefreshAction`].
pub enum ActionView {
    FetchMonitors,
    SendThumbnailJob((Seq<char>, Seq<char>)),
    Finished(Option<SnapshotView>, Option<Set<Seq<char>>>),
}

impl View for RefreshAction {
    type V = ActionView;

    open spec fn view(&self) -> ActionView {
        match self {
            RefreshAction::FetchMonitors => ActionView::FetchMonitors,
            RefreshAction::SendThumbnailJob(j) => ActionView::SendThumbnailJob((j.address@, j.monitor_name@)),
            RefreshAction::Finished(o) => ActionView::Finished(
                snapshot_view(o.snapshot),
                match o.gc_addresses {
                    Some(a) => Some(a@),
                    None => None,
                },
            ),
        }
    }
}

/// The finishing step of a refresh from state `pre` with cycle `c`: the
/// list is built from the clients (or, without them, from the cache), the
/// snapshot is emitted if it changed, and a clean-up is asked for when the
/// listed addresses differ from those of the last clean-up.
pub open spec fn finish_relation(pre: BackendView, c: CycleView, post: BackendView, act: ActionView) -> bool {
    match c.clients {
        Some(cs) => {
            let act_addr = active_of(pre);
            let shown = shown_clients(cs, act_addr);
            let addrs = client_addresses(shown);
            &&& exists|items: Seq<WindowView>|
                #![trigger items_for_clients(items, shown, act_addr, pre)]
                items_for_clients(items, shown, act_addr, pre) && {
                    let mid = BackendView { last_successful_items: items, ..retained(pre, addrs) };
                    let (p, snap) = emit_outcome(
                        mid,
                        stable_sort(items),
                        status_for(c.degraded, items.len() == 0),
                    );
                    post == p && act == ActionView::Finished(
                        snap,
                        if addrs != pre.last_gc_addresses {
                            Some(addrs)
                        } else {
                            None
                        },
                    )
                }
        },
        None => exists|items: Seq<WindowView>|
            #![trigger cached_items_refreshed(pre, items)]
            cached_items_refreshed(pre, items) && {
                let (p, snap) = emit_outcome(
                    pre,
                    stable_sort(items),
                    status_for(c.degraded, items.len() == 0),
                );
                post == p && act == ActionView::Finished(snap, None)
            },
    }
}

/// The step that follows a possible thumbnail job: the job is handed out
/// unless it is already in flight, else the refresh finishes.
pub open spec fn job_step(
    pre: BackendView,
    c: CycleView,
    job: Option<(Seq<char>, Seq<char>)>,
    post: BackendView,
    post_c: CycleView,
    act: ActionView,
) -> bool {
    match job {
        Some(j) => if pre.in_flight.contains(j) {
            finish_relation(pre, c, post, act) && post_c.stage == StageView::Done
        } else {
            &&& post == job_begun(pre, j.0, j.1)
            &&& act == ActionView::SendThumbnailJob(j)
            &&& post_c == cycle_at(c, c.degraded, StageView::ThumbnailSend(j))
        },
        None => finish_relation(pre, c, post, act) && post_c.stage == StageView::Done,
    }
}

/// The step that looks up the active window's monitor: a cache miss asks
/// for the monitor names, a hit records the active window.
pub open spec fn active_step(pre: BackendView, c: CycleView, post: BackendView, post_c: CycleView, act: ActionView) -> bool {
    match c.active {
        Some((a, id)) => if pre.monitors.contains_key(id) {
            job_step(
                transitioned(pre, a, pre.monitors[id]),
                c,
                transition_job(pre, a),
                post,
                post_c,
                act,
            )
        } else {
            &&& post == pre
            &&& act == ActionView::FetchMonitors
            &&& post_c == cycle_at(c, c.degraded, StageView::ActiveMonitor)
        },
        None => job_step(pre, c, None, post, post_c, act),
    }
}

/// The step after the monitor names that the active window's monitor needed
/// were fetched (`None` when the fetch failed).
pub open spec fn active_monitor_step(
    pre: BackendView,
    c: CycleView,
    fetched: Option<Seq<HyprctlMonitor>>,
    post: BackendView,
    post_c: CycleView,
    act: ActionView,
) -> bool {
    let mid = monitors_refreshed(pre, fetched);
    match c.active {
        Some((a, id)) => if fetched is Some && mid.monitors.contains_key(id) {
            job_step(
                transitioned(mid, a, mid.monitors[id]),
                c,
                transition_job(mid, a),
                post,
                post_c,
                act,
            )
        } else {
            job_step(mid, cycle_at(c, c.degraded || fetched is None, c.stage), None, post, post_c, act)
        },
        None => false,
    }
}

/// The fetched monitor list as a sequence.
pub open spec fn fetched_view(m: Option<Vec<HyprctlMonitor>>) -> Option<Seq<HyprctlMonitor>> {
    match m {
        Some(v) => Some(v@),
        None => None,
    }
}

/// Whether `event` is what the stage of `c` waits for.
pub open spec fn event_fits(c: CycleView, event: RefreshEvent) -> bool {
    match c.stage {
        StageView::InitialMonitors => event is MonitorsFetched,
        StageView::ActiveMonitor => event is MonitorsFetched && c.active is Some,
        StageView::ThumbnailSend(_) => event is ThumbnailJobSent,
        StageView::Done => false,
    }
}

/// The step that `event` drives from stage of `c`.
pub open spec fn resume_relation(
    pre: BackendView,
    c: CycleView,
    event: RefreshEvent,
    post: BackendView,
    post_c: CycleView,
    act: ActionView,
) -> bool {
    match (c.stage, event) {
        (StageView::InitialMonitors, RefreshEvent::MonitorsFetched(m)) => active_step(
            monitors_refreshed(pre, fetched_view(m)),
            cycle_at(c, c.degraded || m is None, c.stage),
            post,
            post_c,
            act,
        ),
        (StageView::ActiveMonitor, RefreshEvent::MonitorsFetched(m)) => active_monitor_step(
            pre,
            c,
            fetched_view(m),
            post,
            post_c,
            act,
        ),
        (StageView::ThumbnailSend(j), RefreshEvent::ThumbnailJobSent(sent)) => finish_relation(
            if sent {
                pre
            } else {
                job_send_failed(pre, j.0, j.1)
            },
            c,
            post,
            act,
        ) && post_c.stage == StageView::Done,
        _ => false,
    }
}

/// Whether the counters can take the steps ahead of stage `stage`.
pub open spec fn counters_fit(v: BackendView, stage: StageView) -> bool {
    &&& v.revision < u64::MAX
    &&& (stage is InitialMonitors || stage is ActiveMonitor) ==> v.focus_seq < u64::MAX
}

impl RefreshCycle {
    /// The stage of the refresh.
    pub fn is_done(&self) -> (done: bool)
        ensures
            done == (self@.stage is Done),
    {
        match self.stage {
            RefreshStage::Done => true,
            _ => false,
        }
    }
}

impl BackendState {
    fn finish_refresh(&mut self, cycle: &mut RefreshCycle) -> (act: RefreshAction)
        requires
            old(self).wf(),
            old(self)@.revision < u64::MAX,
        ensures
            final(self).wf(),
            finish_relation(old(self)@, old(cycle)@, final(self)@, act@),
            final(cycle)@.stage == StageView::Done,
            action_wf(&act),
    {
        let ghost pre = self@;
        let ghost c = cycle@;
        let degraded = cycle.degraded;
        cycle.stage = RefreshStage::Done;
        match &cycle.clients {
            Some(clients) => {
                let active_address = self.active_address();
                let mut active_addresses = AddressSet::new();
                let items = match &active_address {
                    Some(a) => build_items(
                        clients.as_slice(),
                        Some(a.as_str()),
                        self,
                        &mut active_addresses,
                    ),
                    None => build_items(clients.as_slice(), None, self, &mut active_addresses),
                };
                let ghost act_addr = active_of(pre);
                let ghost shown = shown_clients(c.clients.unwrap(), act_addr);
                assert(clients_view(clients@) == c.clients.unwrap());
                assert(active_addresses@ =~= client_addresses(shown));
                let ghost items_v = windows_view(items@);
                let gc_addresses = if self.gc_needed(&active_addresses) {
                    Some(active_addresses)
                } else {
                    None
                };
                self.set_last_successful_items(&items);
                let mut items = items;
                sort_items(&mut items);
                let empty = items.len() == 0;
                let status = if degraded {
                    UiStatus::BackendDegraded
                } else if empty {
                    UiStatus::Empty
                } else {
                    UiStatus::Ready
                };
                let ghost mid = self@;
                assert(mid == (BackendView { last_successful_items: items_v, ..retained(pre, client_addresses(shown)) }));
                let snapshot = self.emit_snapshot(items, status);
                let act = RefreshAction::Finished(RefreshOutcome { snapshot, gc_addresses });
                assert(items_for_clients(items_v, shown, act_addr, pre));
                act
            },
            None => {
                let items = self.rebuild_cached_items();
                let ghost items_v = windows_view(items@);
                assert(cached_items_refreshed(pre, items_v));
                let mut items = items;
                sort_items(&mut items);
                let empty = items.len() == 0;
                let status = if degraded {
                    UiStatus::BackendDegraded
                } else if empty {
                    UiStatus::Empty
                } else {
                    UiStatus::Ready
                };
                let snapshot = self.emit_snapshot(items, status);
                RefreshAction::Finished(RefreshOutcome { snapshot, gc_addresses: None })
            },
        }
    }
}

/// The outcome of a worker's report from state `pre`: the report is
/// recorded, and when it changed the preview state the cached list is
/// re-emitted (as empty, or with the last status).
pub open spec fn thumbnail_result_relation(
    pre: BackendView,
    address: Seq<char>,
    monitor: Seq<char>,
    success: bool,
    post: BackendView,
    snap: Option<SnapshotView>,
) -> bool {
    let mid = thumbnail_result_applied(pre, address, monitor, success);
    if !thumbnail_result_changes(pre, address, success) {
        post == mid && snap is None
    } else {
        exists|items: Seq<WindowView>|
            #![trigger cached_items_refreshed(mid, items)]
            cached_items_refreshed(mid, items) && (post, snap) == emit_outcome(
                mid,
                items,
                if items.len() == 0 {
                    UiStatus::Empty
                } else {
                    mid.last_status
                },
            )
    }
}

/// The cycle a refresh starts with, from the fetched clients and active
/// window (`None` where a fetch failed).
pub open spec fn started_cycle(clients: Option<Seq<ClientView>>, active: Option<(Seq<char>, i32)>) -> CycleView {
    CycleView {
        clients,
        active,
        degraded: clients is None || active is None,
        stage: StageView::InitialMonitors,
    }
}

impl BackendState {
    fn enqueue_job(&mut self, cycle: &mut RefreshCycle, job: Option<ThumbnailJob>) -> (act: RefreshAction)
        requires
            old(self).wf(),
            old(self)@.revision < u64::MAX,
        ensures
            final(self).wf(),
            job_step(
                old(self)@,
                old(cycle)@,
                crate::backend::job_view(job),
                final(self)@,
                final(cycle)@,
                act@,
            ),
            action_wf(&act),
    {
        match job {
            Some(job) => {
                if self.begin_thumbnail_job(&job) {
                    let act = RefreshAction::SendThumbnailJob(
                        ThumbnailJob {
                            address: job.address.clone(),
                            monitor_name: job.monitor_name.clone(),
                        },
                    );
                    cycle.stage = RefreshStage::ThumbnailSend(job);
                    act
                } else {
                    self.finish_refresh(cycle)
                }
            },
            None => self.finish_refresh(cycle),
        }
    }

    fn resolve_active(&mut self, cycle: &mut RefreshCycle) -> (act: RefreshAction)
        requires
            old(self).wf(),
            old(self)@.revision < u64::MAX,
            old(self)@.focus_seq < u64::MAX,
        ensures
            final(self).wf(),
            active_step(old(self)@, old(cycle)@, final(self)@, final(cycle)@, act@),
            action_wf(&act),
    {
        let target = match &cycle.active {
            Some(active) => Some((active.address.clone(), active.monitor)),
            None => None,
        };
        match target {
            Some((address, id)) => match self.monitor_name(id) {
                Some(name) => {
                    let job = self.handle_active_transition(address, name);
                    self.enqueue_job(cycle, job)
                },
                None => {
                    cycle.stage = RefreshStage::ActiveMonitor;
                    RefreshAction::FetchMonitors
                },
            },
            None => self.enqueue_job(cycle, None),
        }
    }

    /// Starts a refresh from what `hyprctl clients -j` and
    /// `hyprctl activewindow -j` returned (`None` where a fetch failed), when
    /// the monitor cache is `cache_age` whole seconds old (`None`: never
    /// fetched). When the monitor names are due for a refetch the first step
    /// is a monitor fetch, leaving the state unchanged; otherwise it is the
    /// lookup of the active window's monitor.
    pub fn start_refresh_after(
        &mut self,
        clients: Option<Vec<HyprctlClient>>,
        active: Option<HyprctlActiveWindow>,
        cache_age: Option<u64>,
    ) -> (res: (RefreshCycle, RefreshAction))
        requires
            old(self).wf(),
            old(self)@.revision < u64::MAX,
            old(self)@.focus_seq < u64::MAX,
        ensures
            final(self).wf(),
            ({
                let c = started_cycle(
                    match clients {
                        Some(v) => Some(clients_view(v@)),
                        None => None,
                    },
                    match active {
                        Some(a) => Some((a.address@, a.monitor)),
                        None => None,
                    },
                );
                if monitor_refresh_due_spec(old(self)@.monitors.dom().len() == 0, cache_age) {
                    res.1@ == ActionView::FetchMonitors && res.0@ == c && final(self)@ == old(self)@
                } else {
                    active_step(old(self)@, c, final(self)@, res.0@, res.1@)
                }
            }),
            action_wf(&res.1),
    {
        let degraded = clients.is_none() || active.is_none();
        let mut cycle = RefreshCycle { clients, active, degraded, stage: RefreshStage::InitialMonitors };
        if self.monitors_due(cache_age) {
            return (cycle, RefreshAction::FetchMonitors);
        }
        let act = self.resolve_active(&mut cycle);
        (cycle, act)
    }

    /// Starts a refresh as [`BackendState::start_refresh_after`] does, with
    /// the age of the monitor cache read off the clock. The age is not
    /// stated, so the first step is either a monitor fetch, leaving the state
    /// unchanged, or the lookup of the active window's monitor; a fetch is
    /// asked for whenever the cache is empty or was never filled.
    pub fn start_refresh(
        &mut self,
        clients: Option<Vec<HyprctlClient>>,
        active: Option<HyprctlActiveWindow>,
    ) -> (res: (RefreshCycle, RefreshAction))
        requires
            old(self).wf(),
            old(self)@.revision < u64::MAX,
            old(self)@.focus_seq < u64::MAX,
        ensures
            final(self).wf(),
            ({
                let c = started_cycle(
                    match clients {
                        Some(v) => Some(clients_view(v@)),
                        None => None,
                    },
                    match active {
                        Some(a) => Some((a.address@, a.monitor)),
                        None => None,
                    },
                );
                ||| (res.1@ == ActionView::FetchMonitors && res.0@ == c && final(self)@ == old(self)@)
                ||| active_step(old(self)@, c, final(self)@, res.0@, res.1@)
            }),
            old(self)@.monitors.dom().len() == 0 || !old(self)@.monitors_fetched ==> (res.1@
                == ActionView::FetchMonitors && res.0@.stage == StageView::InitialMonitors
                && final(self)@ == old(self)@),
            action_wf(&res.1),
    {
        let age = self.monitor_cache_age();
        self.start_refresh_after(clients, active, age)
    }

    /// Continues a refresh with what the app reports for the step it was
    /// asked to take.
    pub fn resume_refresh(&mut self, cycle: &mut RefreshCycle, event: RefreshEvent) -> (act: RefreshAction)
        requires
            old(self).wf(),
            event_fits(old(cycle)@, event),
            counters_fit(old(self)@, old(cycle)@.stage),
        ensures
            final(self).wf(),
            resume_relation(old(self)@, old(cycle)@, event, final(self)@, final(cycle)@, act@),
            action_wf(&act),
    {
        let ghost pre = self@;
        let ghost c = cycle@;
        match event {
            RefreshEvent::MonitorsFetched(monitors) => {
                let failed = monitors.is_none();
                let ok = self.refresh_monitors(monitors);
                match cycle.stage {
                    RefreshStage::InitialMonitors => {
                        if !ok {
                            cycle.degraded = true;
                        }
                        assert(cycle@ == cycle_at(c, c.degraded || failed, c.stage));
                        self.resolve_active(cycle)
                    },
                    _ => {
                        let id = match &cycle.active {
                            Some(a) => a.monitor,
                            None => 0,
                        };
                        let name = if ok {
                            self.monitor_name(id)
                        } else {
                            cycle.degraded = true;
                            None
                        };
                        match name {
                            Some(name) => {
                                let address = match &cycle.active {
                                    Some(a) => a.address.clone(),
                                    None => String::new(),
                                };
                                let job = self.handle_active_transition(address, name);
                                self.enqueue_job(cycle, job)
                            },
                            None => {
                                assert(cycle@ == cycle_at(c, c.degraded || failed, c.stage));
                                self.enqueue_job(cycle, None)
                            },
                        }
                    },
                }
            },
            RefreshEvent::ThumbnailJobSent(sent) => {
                let job = match &cycle.stage {
                    RefreshStage::ThumbnailSend(j) => ThumbnailJob {
                        address: j.address.clone(),
                        monitor_name: j.monitor_name.clone(),
                    },
                    _ => ThumbnailJob { address: String::new(), monitor_name: String::new() },
                };
                if !sent {
                    self.thumbnail_job_send_failed(&job);
                }
                self.finish_refresh(cycle)
            },
        }
    }

    /// Records a worker's report and returns the snapshot to send when the
    /// report changed what the overlay shows.
    pub fn handle_thumbnail_result(&mut self, result: ThumbnailResult) -> (snapshot: Option<UiSnapshot>)
        requires
            old(self).wf(),
            old(self)@.revision < u64::MAX,
        ensures
            final(self).wf(),
            thumbnail_result_relation(
                old(self)@,
                result.address@,
                result.monitor_name@,
                result.success,
                final(self)@,
                snapshot_view(snapshot),
            ),
    {
        if !self.apply_thumbnail_result(result) {
            return None;
        }
        let ghost mid = self@;
        let items = self.rebuild_cached_items();
        let ghost items_v = windows_view(items@);
        assert(cached_items_refreshed(mid, items_v));
        let status = if items.len() == 0 {
            UiStatus::Empty
        } else {
            self.last_status()
        };
        self.emit_snapshot(items, status)
    }
}
} // verus!
