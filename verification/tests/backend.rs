use window_switcher::backend::{loading_snapshot, monitor_refresh_due, BackendState};
use window_switcher::model::{
    HyprctlActiveWindow, HyprctlClient, HyprctlMonitor, HyprctlWorkspace, ThumbnailJob,
    ThumbnailResult, ThumbnailState, UiStatus, WindowData,
};
use window_switcher::ordering::sort_items;
use window_switcher::refresh::{build_items, RefreshAction, RefreshEvent};
use window_switcher::table::AddressSet;

fn window(address: &str, title: &str, class: &str, seq: u64) -> WindowData {
    WindowData {
        address: address.into(),
        title: title.into(),
        class: class.into(),
        is_active: false,
        monitor_name: None,
        workspace_id: None,
        last_focus_seq: seq,
        thumbnail_state: ThumbnailState::Missing,
    }
}

fn client(address: &str, title: &str, class: &str, mapped: bool) -> HyprctlClient {
    HyprctlClient {
        address: address.into(),
        title: title.into(),
        class: class.into(),
        mapped,
        monitor: Some(0),
        workspace: Some(HyprctlWorkspace { id: 3 }),
    }
}

#[test]
fn selects_previous_window_when_multiple_items_exist() {
    let state = BackendState::new();
    let items = vec![
        WindowData {
            address: "0x1".into(),
            title: "Current".into(),
            class: "current".into(),
            is_active: true,
            monitor_name: None,
            workspace_id: None,
            last_focus_seq: 3,
            thumbnail_state: ThumbnailState::Ready,
        },
        WindowData {
            address: "0x2".into(),
            title: "Previous".into(),
            class: "previous".into(),
            is_active: false,
            monitor_name: None,
            workspace_id: None,
            last_focus_seq: 2,
            thumbnail_state: ThumbnailState::Ready,
        },
    ];

    assert_eq!(state.current_selected_address(&items), Some("0x2".into()));
}

#[test]
fn sorts_items_by_latest_focus_sequence() {
    let mut items = vec![
        WindowData {
            address: "0x1".into(),
            title: "First".into(),
            class: "one".into(),
            is_active: false,
            monitor_name: None,
            workspace_id: None,
            last_focus_seq: 1,
            thumbnail_state: ThumbnailState::Missing,
        },
        WindowData {
            address: "0x2".into(),
            title: "Second".into(),
            class: "two".into(),
            is_active: true,
            monitor_name: None,
            workspace_id: None,
            last_focus_seq: 3,
            thumbnail_state: ThumbnailState::Missing,
        },
        WindowData {
            address: "0x3".into(),
            title: "Third".into(),
            class: "three".into(),
            is_active: false,
            monitor_name: None,
            workspace_id: None,
            last_focus_seq: 2,
            thumbnail_state: ThumbnailState::Missing,
        },
    ];

    sort_items(&mut items);

    assert_eq!(
        items
            .into_iter()
            .map(|item| item.address)
            .collect::<Vec<_>>(),
        vec!["0x2", "0x3", "0x1"]
    );
}

#[test]
fn sort_breaks_ties_by_lowercase_title_and_keeps_order() {
    let mut items = vec![
        window("a", "beta", "x", 5),
        window("b", "Alpha", "x", 5),
        window("c", "alpha", "x", 5),
        window("d", "zeta", "x", 7),
    ];
    sort_items(&mut items);
    let order: Vec<String> = items.into_iter().map(|i| i.address).collect();
    assert_eq!(order, vec!["d", "b", "c", "a"]);
}

#[test]
fn selection_of_single_and_empty_lists() {
    let state = BackendState::new();
    assert_eq!(state.current_selected_address(&[]), None);
    assert_eq!(
        state.current_selected_address(&[window("0x9", "Only", "c", 1)]),
        Some("0x9".to_string())
    );
}

#[test]
fn activation_moves_window_to_front_and_returns_previous_job() {
    let mut state = BackendState::new();
    assert!(state.handle_active_transition("0xa".into(), "DP-1".into()).is_none());
    let job = state
        .handle_active_transition("0xb".into(), "HDMI-A-1".into())
        .expect("a change of the active window asks for a preview of the previous one");
    assert_eq!(job.address, "0xa");
    assert_eq!(job.monitor_name, "DP-1");
    assert_eq!(state.mru_addresses(), vec!["0xb".to_string(), "0xa".to_string()]);
    assert_eq!(state.focus_counter(), 2);
    assert_eq!(state.recorded_focus_seq(&"0xb".to_string()), Some(2));

    let again = state.handle_active_transition("0xb".into(), "HDMI-A-1".into());
    assert!(again.is_none());
    assert_eq!(state.focus_counter(), 2);

    let back = state.handle_active_transition("0xa".into(), "DP-1".into()).unwrap();
    assert_eq!(back.address, "0xb");
    assert_eq!(state.mru_addresses(), vec!["0xa".to_string(), "0xb".to_string()]);
    assert_eq!(state.recorded_focus_seq(&"0xa".to_string()), Some(3));
}

#[test]
fn empty_address_is_ignored() {
    let mut state = BackendState::new();
    assert!(state.handle_active_transition(String::new(), "DP-1".into()).is_none());
    state.register_active_window("");
    assert_eq!(state.focus_counter(), 0);
    assert_eq!(state.active_address(), None);
}

#[test]
fn register_skips_the_window_that_is_already_active() {
    let mut state = BackendState::new();
    state.handle_active_transition("0x1".into(), "DP-1".into());
    state.register_active_window("0x1");
    assert_eq!(state.focus_counter(), 1);
    state.register_active_window("0x2");
    assert_eq!(state.focus_counter(), 2);
    assert_eq!(state.mru_addresses(), vec!["0x2".to_string(), "0x1".to_string()]);
}

#[test]
fn emitting_the_same_content_twice_sends_once() {
    let mut state = BackendState::new();
    let first = state
        .emit_snapshot(vec![window("0x1", "One", "c", 1), window("0x2", "Two", "c", 2)], UiStatus::Ready)
        .expect("first emission");
    assert_eq!(first.revision, 1);
    assert_eq!(first.items[0].address, "0x2");
    assert_eq!(first.selected_address, Some("0x1".to_string()));
    let second =
        state.emit_snapshot(vec![window("0x2", "Two", "c", 2), window("0x1", "One", "c", 1)], UiStatus::Ready);
    assert!(second.is_none());
    assert_eq!(state.revision(), 1);
    let third = state
        .emit_snapshot(vec![window("0x1", "One", "c", 1)], UiStatus::BackendDegraded)
        .unwrap();
    assert_eq!(third.revision, 2);
    assert_eq!(third.status, UiStatus::BackendDegraded);
    assert_eq!(state.last_status(), UiStatus::BackendDegraded);
}

#[test]
fn build_items_applies_fallbacks_and_filters() {
    let mut state = BackendState::new();
    state.refresh_monitors(Some(vec![HyprctlMonitor { id: 0, name: "DP-1".into() }]));
    let clients = vec![
        client("0xa", "Editor", "code", true),
        client("0xb", "", "", true),
        client("0xc", "Hidden", "x", false),
        client("0xd", "", "term", true),
    ];
    let mut active = AddressSet::new();
    let items = build_items(&clients, Some("0xd"), &mut state, &mut active);
    assert_eq!(items.len(), 2);
    assert_eq!(items[0].address, "0xa");
    assert_eq!(items[0].title, "Editor");
    assert_eq!(items[0].monitor_name, Some("DP-1".to_string()));
    assert_eq!(items[0].workspace_id, Some(3));
    assert!(!items[0].is_active);
    assert_eq!(items[1].address, "0xd");
    assert_eq!(items[1].title, "term");
    assert_eq!(items[1].class, "term");
    assert!(items[1].is_active);
    assert!(active.contains(&"0xa".to_string()));
    assert!(active.contains(&"0xd".to_string()));
    assert!(!active.contains(&"0xb".to_string()));
}

#[test]
fn build_items_uses_the_executable_icon_for_classless_windows() {
    let mut state = BackendState::new();
    let clients = vec![client("0xe", "", "", true)];
    let mut active = AddressSet::new();
    let items = build_items(&clients, Some("0xe"), &mut state, &mut active);
    assert_eq!(items[0].class, "application-x-executable");
    assert_eq!(items[0].title, "application-x-executable");
    assert_eq!(items[0].monitor_name, None);
}

#[test]
fn retain_drops_metadata_of_closed_windows() {
    let mut state = BackendState::new();
    state.handle_active_transition("0x1".into(), "DP-1".into());
    state.handle_active_transition("0x2".into(), "DP-1".into());
    state.handle_active_transition("0x3".into(), "DP-1".into());
    let mut keep = AddressSet::new();
    keep.insert("0x1".into());
    keep.insert("0x3".into());
    state.retain_active_metadata(&keep);
    assert_eq!(state.mru_addresses(), vec!["0x3".to_string(), "0x1".to_string()]);
    assert_eq!(state.recorded_focus_seq(&"0x2".to_string()), None);
    assert_eq!(state.recorded_focus_seq(&"0x1".to_string()), Some(1));
}

#[test]
fn thumbnail_jobs_are_deduplicated_and_results_recorded() {
    let mut state = BackendState::new();
    let job = ThumbnailJob { address: "0xfeed".into(), monitor_name: "DP-1".into() };
    assert!(state.begin_thumbnail_job(&job));
    assert!(!state.begin_thumbnail_job(&job));
    assert_eq!(state.resolve_thumbnail_state_with("0xfeed", true), ThumbnailState::Pending);
    let changed = state.apply_thumbnail_result(ThumbnailResult {
        address: "0xfeed".into(),
        monitor_name: "DP-1".into(),
        success: false,
    });
    assert!(changed);
    assert_eq!(state.resolve_thumbnail_state_with("0xfeed", true), ThumbnailState::Failed);
    let unchanged = state.apply_thumbnail_result(ThumbnailResult {
        address: "0xfeed".into(),
        monitor_name: "DP-1".into(),
        success: false,
    });
    assert!(!unchanged);
    assert!(state.begin_thumbnail_job(&job));
    state.thumbnail_job_send_failed(&job);
    assert_eq!(state.resolve_thumbnail_state_with("0xfeed", false), ThumbnailState::Failed);
    assert!(state.begin_thumbnail_job(&job));
}

#[test]
fn thumbnail_state_resolution_order() {
    let mut state = BackendState::new();
    assert_eq!(state.resolve_thumbnail_state_with("0x1", false), ThumbnailState::Missing);
    assert_eq!(state.resolve_thumbnail_state_with("0x1", true), ThumbnailState::Ready);
    state.apply_thumbnail_result(ThumbnailResult {
        address: "0x1".into(),
        monitor_name: "DP-1".into(),
        success: true,
    });
    assert_eq!(state.resolve_thumbnail_state_with("0x1", false), ThumbnailState::Ready);
    assert_eq!(
        state.resolve_thumbnail_state("0x-no-such-window-preview"),
        ThumbnailState::Missing
    );
}

#[test]
fn gc_runs_only_when_the_address_set_changes() {
    let mut state = BackendState::new();
    let mut set = AddressSet::new();
    assert!(!state.gc_needed(&set));
    set.insert("0x1".into());
    assert!(state.gc_needed(&set));
    state.record_gc_started(set.duplicate());
    assert!(!state.gc_needed(&set));
}

#[test]
fn monitor_refresh_is_due_when_cache_is_empty_or_old() {
    assert!(monitor_refresh_due(true, Some(0)));
    assert!(monitor_refresh_due(false, None));
    assert!(monitor_refresh_due(false, Some(10)));
    assert!(!monitor_refresh_due(false, Some(9)));
    let mut state = BackendState::new();
    assert!(state.should_refresh_monitors());
    assert!(!state.refresh_monitors(None));
    assert!(state.refresh_monitors(Some(vec![
        HyprctlMonitor { id: 1, name: "A".into() },
        HyprctlMonitor { id: 1, name: "B".into() },
    ])));
    assert_eq!(state.monitor_name(1), Some("B".to_string()));
    assert_eq!(state.monitor_name(2), None);
    assert!(!state.should_refresh_monitors());
}

#[test]
fn refresh_cycle_fetches_monitors_then_emits() {
    let mut state = BackendState::new();
    let clients = vec![client("0xa", "Editor", "code", true), client("0xb", "Shell", "term", true)];
    let active = HyprctlActiveWindow { address: "0xa".into(), monitor: 0 };
    let (mut cycle, action) = state.start_refresh(Some(clients), Some(active));
    assert!(matches!(action, RefreshAction::FetchMonitors));
    let action = state.resume_refresh(
        &mut cycle,
        RefreshEvent::MonitorsFetched(Some(vec![HyprctlMonitor { id: 0, name: "DP-1".into() }])),
    );
    match action {
        RefreshAction::Finished(outcome) => {
            let snapshot = outcome.snapshot.expect("a first snapshot");
            assert_eq!(snapshot.status, UiStatus::Ready);
            assert_eq!(snapshot.items[0].address, "0xa");
            assert!(snapshot.items[0].is_active);
            assert_eq!(snapshot.selected_address, Some("0xb".to_string()));
            assert_eq!(snapshot.revision, 1);
            assert!(outcome.gc_addresses.is_some());
        }
        _ => panic!("expected the refresh to finish"),
    }
    assert!(cycle.is_done());
}

#[test]
fn refresh_cycle_hands_out_previous_window_job() {
    let mut state = BackendState::new();
    state.refresh_monitors(Some(vec![HyprctlMonitor { id: 0, name: "DP-1".into() }]));
    state.handle_active_transition("0xa".into(), "DP-1".into());
    let clients = vec![client("0xa", "Editor", "code", true), client("0xb", "Shell", "term", true)];
    let active = HyprctlActiveWindow { address: "0xb".into(), monitor: 0 };
    let (mut cycle, action) = state.start_refresh(Some(clients), Some(active));
    match action {
        RefreshAction::SendThumbnailJob(job) => {
            assert_eq!(job.address, "0xa");
            assert_eq!(job.monitor_name, "DP-1");
        }
        _ => panic!("expected a thumbnail job"),
    }
    let action = state.resume_refresh(&mut cycle, RefreshEvent::ThumbnailJobSent(false));
    match action {
        RefreshAction::Finished(outcome) => {
            let snapshot = outcome.snapshot.unwrap();
            assert_eq!(snapshot.items[0].address, "0xb");
            let previous = &snapshot.items[1];
            assert_eq!(previous.address, "0xa");
            assert_eq!(previous.thumbnail_state, ThumbnailState::Failed);
        }
        _ => panic!("expected the refresh to finish"),
    }
}

#[test]
fn refresh_without_clients_is_degraded_and_uses_cache() {
    let mut state = BackendState::new();
    state.refresh_monitors(Some(vec![HyprctlMonitor { id: 0, name: "DP-1".into() }]));
    let (mut cycle, action) = state.start_refresh(None, None);
    let _ = &mut cycle;
    match action {
        RefreshAction::Finished(outcome) => {
            let snapshot = outcome.snapshot.unwrap();
            assert_eq!(snapshot.status, UiStatus::BackendDegraded);
            assert!(snapshot.items.is_empty());
            assert!(outcome.gc_addresses.is_none());
        }
        _ => panic!("expected the refresh to finish"),
    }
}

#[test]
fn failed_monitor_fetch_marks_refresh_degraded() {
    let mut state = BackendState::new();
    let clients = vec![client("0xa", "Editor", "code", true)];
    let active = HyprctlActiveWindow { address: "0xa".into(), monitor: 4 };
    let (mut cycle, action) = state.start_refresh(Some(clients), Some(active));
    assert!(matches!(action, RefreshAction::FetchMonitors));
    let action = state.resume_refresh(&mut cycle, RefreshEvent::MonitorsFetched(None));
    assert!(matches!(action, RefreshAction::FetchMonitors));
    let action = state.resume_refresh(&mut cycle, RefreshEvent::MonitorsFetched(None));
    match action {
        RefreshAction::Finished(outcome) => {
            let snapshot = outcome.snapshot.unwrap();
            assert_eq!(snapshot.status, UiStatus::BackendDegraded);
            assert_eq!(snapshot.items.len(), 1);
        }
        _ => panic!("expected the refresh to finish"),
    }
    assert_eq!(state.active_address(), None);
}

#[test]
fn thumbnail_result_reemits_cached_items() {
    let mut state = BackendState::new();
    state.refresh_monitors(Some(vec![HyprctlMonitor { id: 0, name: "DP-1".into() }]));
    let clients = vec![client("0xa", "Editor", "code", true)];
    let (_cycle, action) = state.start_refresh(
        Some(clients),
        Some(HyprctlActiveWindow { address: "0xa".into(), monitor: 0 }),
    );
    assert!(matches!(action, RefreshAction::Finished(_)));
    let snapshot = state
        .handle_thumbnail_result(ThumbnailResult {
            address: "0xa".into(),
            monitor_name: "DP-1".into(),
            success: false,
        })
        .expect("a changed preview state is re-emitted");
    assert_eq!(snapshot.items[0].thumbnail_state, ThumbnailState::Failed);
    assert_eq!(snapshot.status, UiStatus::Ready);
    assert!(state
        .handle_thumbnail_result(ThumbnailResult {
            address: "0xa".into(),
            monitor_name: "DP-1".into(),
            success: false,
        })
        .is_none());
}

#[test]
fn rebuild_cached_items_refreshes_focus_and_activity() {
    let mut state = BackendState::new();
    let items = vec![window("0x1", "One", "c", 0), window("0x2", "Two", "c", 0)];
    state.set_last_successful_items(&items);
    state.handle_active_transition("0x2".into(), "DP-1".into());
    let rebuilt = state.rebuild_cached_items();
    assert_eq!(rebuilt.len(), 2);
    assert_eq!(rebuilt[0].last_focus_seq, 0);
    assert!(!rebuilt[0].is_active);
    assert_eq!(rebuilt[1].last_focus_seq, 1);
    assert!(rebuilt[1].is_active);
}

#[test]
fn titles_compare_case_insensitively() {
    let mut items = vec![window("z", "Zeta", "x", 1), window("a", "alpha", "x", 1)];
    sort_items(&mut items);
    let order: Vec<String> = items.into_iter().map(|i| i.address).collect();
    assert_eq!(order, vec!["a", "z"]);
}

#[test]
fn sorting_twice_equals_sorting_once() {
    let mut once = vec![
        window("1", "b", "x", 2),
        window("2", "A", "x", 2),
        window("3", "c", "x", 9),
        window("4", "a", "x", 2),
    ];
    sort_items(&mut once);
    let mut twice = once.clone();
    sort_items(&mut twice);
    assert_eq!(once, twice);
}

#[test]
fn unchanged_emission_keeps_the_recorded_status() {
    let mut state = BackendState::new();
    assert_eq!(state.last_status(), UiStatus::Loading);
    let first = state.emit_snapshot(vec![window("0x1", "One", "c", 1)], UiStatus::Ready).unwrap();
    assert_eq!(first.status, UiStatus::Ready);
    assert!(state.emit_snapshot(vec![window("0x1", "One", "c", 1)], UiStatus::Ready).is_none());
    assert_eq!(state.last_status(), UiStatus::Ready);
}

#[test]
fn snapshots_count_up_from_the_loading_snapshot() {
    let loading = loading_snapshot();
    assert!(loading.items.is_empty());
    assert_eq!(loading.selected_address, None);
    assert_eq!(loading.status, UiStatus::Loading);
    assert_eq!(loading.revision, 0);
    let mut state = BackendState::new();
    assert_eq!(state.revision(), loading.revision);
    let a = state.emit_snapshot(vec![], UiStatus::Empty).unwrap();
    assert!(state.emit_snapshot(vec![], UiStatus::Empty).is_none());
    let b = state.emit_snapshot(vec![window("0x1", "One", "c", 1)], UiStatus::Ready).unwrap();
    let c = state.emit_snapshot(vec![], UiStatus::Empty).unwrap();
    assert_eq!((a.revision, b.revision, c.revision), (1, 2, 3));
}

#[test]
fn start_refresh_follows_the_monitor_cache_age() {
    let mut state = BackendState::new();
    assert_eq!(state.monitor_cache_age(), None);
    assert!(state.monitors_due(None));
    assert!(state.refresh_monitors(Some(vec![HyprctlMonitor { id: 0, name: "DP-1".into() }])));
    assert!(state.monitor_cache_age().is_some());
    assert!(state.monitors_due(Some(10)));
    assert!(!state.monitors_due(Some(9)));
    let active = || HyprctlActiveWindow { address: "0xa".into(), monitor: 0 };
    let clients = || vec![client("0xa", "Editor", "code", true)];
    let (_cycle, action) = state.start_refresh_after(Some(clients()), Some(active()), Some(10));
    assert!(matches!(action, RefreshAction::FetchMonitors));
    assert_eq!(state.revision(), 0);
    let (_cycle, action) = state.start_refresh_after(Some(clients()), Some(active()), Some(3));
    assert!(!matches!(action, RefreshAction::FetchMonitors));
    assert_eq!(state.active_address(), Some("0xa".to_string()));
}
