use window_switcher::focus::PendingFocus;
use window_switcher::model::{ThumbnailState, UiSnapshot, UiStatus, WindowData};
use window_switcher::navigation::{
    estimated_columns, key_pressed, key_released, plan_snapshot, NavKey, Relayout,
};
use window_switcher::paths::{is_stale_thumbnail, thumbnail_path};
use window_switcher::presentation::{card_view, describe_window, push_decimal, status_text};
use window_switcher::table::AddressSet;
use window_switcher::capture::{choose_output, OutputChoice};

fn item(address: &str) -> WindowData {
    WindowData {
        address: address.into(),
        title: format!("Title {address}"),
        class: "class".into(),
        is_active: false,
        monitor_name: None,
        workspace_id: None,
        last_focus_seq: 0,
        thumbnail_state: ThumbnailState::Missing,
    }
}

fn order(n: usize) -> Vec<String> {
    (0..n).map(|i| format!("0x{i}")).collect()
}

#[test]
fn focus_requests_are_deduplicated_while_pending() {
    let mut pending = PendingFocus::new();
    assert!(pending.begin("").is_none());
    let command = pending.begin("0x1").expect("first request is queued");
    assert_eq!(command.address, "0x1");
    assert!(pending.begin("0x1").is_none());
    pending.complete("0x1");
    assert!(pending.begin("0x1").is_some());
    pending.abandon("0x1");
    assert!(pending.begin("0x1").is_some());
}

#[test]
fn columns_follow_the_window_width() {
    assert_eq!(estimated_columns(1920, 0), 1);
    assert_eq!(estimated_columns(0, 10), 4);
    assert_eq!(estimated_columns(-5, 2), 2);
    assert_eq!(estimated_columns(1920, 10), 5);
    assert_eq!(estimated_columns(3840, 10), 6);
    assert_eq!(estimated_columns(3840, 3), 3);
    assert_eq!(estimated_columns(100, 10), 1);
}

#[test]
fn tab_and_arrows_move_the_selection() {
    let cards = order(5);
    let selected = Some("0x4".to_string());
    let r = key_pressed(&cards, &selected, 0, NavKey::Tab);
    assert_eq!(r.select_index, Some(0));
    assert!(r.stop);
    assert!(!r.hide_overlay);
    let r = key_pressed(&cards, &Some("0x0".into()), 0, NavKey::Left);
    assert_eq!(r.select_index, Some(0));
    let r = key_pressed(&cards, &Some("0x2".into()), 0, NavKey::Down);
    assert_eq!(r.select_index, Some(4));
    let r = key_pressed(&cards, &Some("0x4".into()), 0, NavKey::Up);
    assert_eq!(r.select_index, Some(0));
    let r = key_pressed(&cards, &Some("0x0".into()), 0, NavKey::Down);
    assert_eq!(r.select_index, Some(4));
    let r = key_pressed(&cards, &Some("gone".into()), 0, NavKey::Right);
    assert_eq!(r.select_index, Some(1));
    let r = key_pressed(&cards, &selected, 0, NavKey::Other);
    assert_eq!(r.select_index, None);
    assert!(!r.stop);
}

#[test]
fn enter_focuses_and_escape_hides() {
    let cards = order(3);
    let selected = Some("0x1".to_string());
    let r = key_pressed(&cards, &selected, 0, NavKey::Return);
    assert_eq!(r.focus_address, Some("0x1".to_string()));
    assert!(r.hide_overlay);
    assert_eq!(r.select_index, Some(1));
    let r = key_pressed(&cards, &selected, 0, NavKey::Escape);
    assert_eq!(r.focus_address, None);
    assert!(r.hide_overlay);
    let empty: Vec<String> = Vec::new();
    let r = key_pressed(&empty, &None, 0, NavKey::Escape);
    assert!(r.hide_overlay && r.stop);
    let r = key_pressed(&empty, &None, 0, NavKey::Tab);
    assert!(!r.hide_overlay && !r.stop);
    let r = key_released(&selected, NavKey::Alt);
    assert_eq!(r.focus_address, Some("0x1".to_string()));
    assert!(r.hide_overlay);
    let r = key_released(&selected, NavKey::Tab);
    assert!(!r.hide_overlay);
}

#[test]
fn snapshot_plan_keeps_selection_by_address() {
    let snapshot = UiSnapshot {
        items: vec![item("0x1"), item("0x2"), item("0x3")],
        selected_address: Some("0x2".into()),
        status: UiStatus::Ready,
        revision: 4,
    };
    let rendered = vec!["0x1".to_string(), "0x2".to_string(), "0x3".to_string()];
    let cached = vec!["0x3".to_string(), "0x9".to_string(), "0x1".to_string(), "0x2".to_string()];
    let plan = plan_snapshot(&rendered, &cached, &Some("0x3".into()), &snapshot);
    assert!(!plan.order_changed);
    assert_eq!(plan.relayout, Relayout::Keep);
    assert_eq!(plan.stale, vec!["0x9".to_string()]);
    assert!(plan.created.is_empty());
    assert_eq!(plan.selection, Some("0x3".to_string()));
    assert_eq!(plan.selected_index, Some(2));
    assert!(plan.grid_visible);
}

#[test]
fn snapshot_plan_rebuilds_on_reorder() {
    let snapshot = UiSnapshot {
        items: vec![item("0x2"), item("0x4"), item("0x1")],
        selected_address: Some("0x4".into()),
        status: UiStatus::Ready,
        revision: 5,
    };
    let rendered = vec!["0x1".to_string(), "0x2".to_string()];
    let cached = rendered.clone();
    let plan = plan_snapshot(&rendered, &cached, &Some("0x1".into()), &snapshot);
    assert!(plan.order_changed);
    assert_eq!(plan.relayout, Relayout::Rebuild);
    assert_eq!(plan.created, vec!["0x4".to_string()]);
    assert_eq!(plan.selection, Some("0x4".to_string()));
    assert_eq!(plan.selected_index, Some(1));
    let empty = UiSnapshot { items: vec![], selected_address: None, status: UiStatus::Empty, revision: 6 };
    let none: Vec<String> = Vec::new();
    let plan = plan_snapshot(&none, &none, &None, &empty);
    assert_eq!(plan.relayout, Relayout::AppendAll);
    assert_eq!(plan.selection, None);
    assert!(!plan.grid_visible);
}

#[test]
fn status_lines() {
    assert_eq!(status_text(UiStatus::Loading, true), "Loading windows and previews...");
    assert_eq!(status_text(UiStatus::Ready, true), "No windows available.");
    assert_eq!(status_text(UiStatus::Ready, false), "Use arrows or Tab to move, Enter to switch.");
    assert_eq!(status_text(UiStatus::Empty, false), "No windows available.");
    assert_eq!(
        status_text(UiStatus::BackendDegraded, false),
        "Limited backend data. Fallback metadata is still usable."
    );
}

#[test]
fn window_descriptions() {
    let mut w = item("0x1");
    assert_eq!(describe_window(&w), "class");
    w.is_active = true;
    w.monitor_name = Some("DP-1".into());
    w.workspace_id = Some(-12);
    assert_eq!(describe_window(&w), "Active / Monitor DP-1 / Workspace -12");
    w.is_active = false;
    w.monitor_name = None;
    w.workspace_id = Some(2147483647);
    assert_eq!(describe_window(&w), "Workspace 2147483647");
    let mut s = String::from("n=");
    push_decimal(&mut s, i32::MIN);
    assert_eq!(s, "n=-2147483648");
    let mut z = String::new();
    push_decimal(&mut z, 0);
    assert_eq!(z, "0");
}

#[test]
fn card_views_follow_preview_state() {
    let mut w = item("0xabc");
    w.thumbnail_state = ThumbnailState::Ready;
    w.is_active = true;
    let card = card_view(&w, true);
    assert_eq!(card.state_text, "Active window");
    assert_eq!(card.preview_path, Some("/tmp/switcher-thumbnails/0xabc.png".to_string()));
    assert_eq!(card.tooltip, "Title 0xabc (0xabc)");
    assert!(card.selected && card.active);
    w.thumbnail_state = ThumbnailState::Failed;
    w.class = String::new();
    let card = card_view(&w, false);
    assert_eq!(card.state_text, "Preview capture failed");
    assert!(card.failed && !card.pending && !card.missing);
    assert_eq!(card.icon_name, "application-x-executable");
    assert_eq!(card.preview_path, None);
    w.thumbnail_state = ThumbnailState::Pending;
    assert_eq!(card_view(&w, false).state_text, "Preview loading");
    w.thumbnail_state = ThumbnailState::Missing;
    assert_eq!(card_view(&w, false).state_text, "Preview unavailable");
}

#[test]
fn preview_paths_and_stale_files() {
    assert_eq!(thumbnail_path("0x55"), "/tmp/switcher-thumbnails/0x55.png");
    let mut active = AddressSet::new();
    active.insert("0x55".into());
    assert!(!is_stale_thumbnail("0x55.png", &active));
    assert!(is_stale_thumbnail("0x66.png", &active));
    assert!(!is_stale_thumbnail("0x66.jpg", &active));
    assert!(!is_stale_thumbnail("0x55.png.png", &active));
    assert!(is_stale_thumbnail(".png", &active));
}

#[test]
fn output_choice_prefers_last_named_output() {
    let names = vec!["DP-1".to_string(), "HDMI-A-1".to_string(), "DP-1".to_string()];
    assert_eq!(choose_output(&names, "DP-1", 2), OutputChoice::Named(2));
    assert_eq!(choose_output(&names, "eDP-1", 2), OutputChoice::First);
    assert_eq!(choose_output(&names, "eDP-1", 0), OutputChoice::NoOutput);
}

#[test]
fn tab_cycles_back_to_the_start() {
    let cards = order(4);
    let mut selected = Some("0x2".to_string());
    for _ in 0..4 {
        let r = key_pressed(&cards, &selected, 0, NavKey::Tab);
        selected = Some(cards[r.select_index.unwrap()].clone());
    }
    assert_eq!(selected, Some("0x2".to_string()));
}
