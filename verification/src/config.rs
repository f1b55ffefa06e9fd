//! Tunable constants of the switcher.
use vstd::prelude::*;

verus! {

/// Directory that holds one PNG preview per window address.
pub const THUMBNAIL_DIR: &'static str = "/tmp/switcher-thumbnails";

/// File that collects failed focus dispatches.
pub const FOCUS_LOG_PATH: &'static str = "/tmp/window-switcher-focus.log";

/// Application identifier registered with GTK.
pub const APP_ID: &'static str = "dev.hyprland.window-switcher";

/// Quiet period that coalesces bursts of active-window events.
pub const REFRESH_DEBOUNCE_MS: u64 = 75;

/// Period of the safety poll that recovers from missed compositor events.
pub const SAFETY_POLL_SECS: u64 = 3;

/// Age after which the cached monitor names are fetched again.
pub const MONITOR_REFRESH_SECS: u64 = 10;

/// Capacity of the focus request queue.
pub const FOCUS_QUEUE_CAPACITY: usize = 32;

/// Capacity of the thumbnail job queue.
pub const THUMBNAIL_QUEUE_CAPACITY: usize = 16;

/// Largest thumbnail width in pixels.
pub const THUMBNAIL_MAX_WIDTH: u32 = 320;

/// Largest thumbnail height in pixels.
pub const THUMBNAIL_MAX_HEIGHT: u32 = 180;

/// Preview area of a card.
pub const UI_THUMBNAIL_WIDTH: i32 = 320;

/// Preview area of a card.
pub const UI_THUMBNAIL_HEIGHT: i32 = 180;

/// Requested card width.
pub const UI_CARD_WIDTH: i32 = 340;

/// Requested card height.
pub const UI_CARD_HEIGHT: i32 = 290;

/// Gap between cards of the grid.
pub const UI_GRID_SPACING: i32 = 18;

/// Margin around the overlay content.
pub const UI_OUTER_MARGIN: i32 = 48;

/// Columns used before the window has a width.
pub const DEFAULT_COLUMNS: usize = 4;

/// Upper bound on the number of grid columns.
pub const MAX_COLUMNS: usize = 6;

} // verus!
