//! What single operations promise for every input: how the arrow keys
//! move, when a snapshot must be sent, what a failed fetch does to a
//! refresh, what a card's state line says, and how a frame is scaled.
use vstd::prelude::*;
use vstd::string::*;
use crate::backend::{content_of, emit_outcome, monitors_refreshed, retained, status_consistent, BackendView};
use crate::frame::{png_encoding, rgba_rows, thumbnail_png, triangle_resized};
use crate::model::{ClientView, ThumbnailState, UiStatus, WindowView};
use crate::navigation::{moved_index, NavKey};
use crate::laws::lemma_stable_sort_sorted;
use crate::ordering::stable_sort;
use crate::presentation::state_text_spec;
use crate::refresh::{
    active_of, active_step, cached_items_refreshed, client_addresses, cycle_at, fetched_view,
    finish_relation, items_for_clients, job_step, resume_relation, shown_clients, started_cycle,
    status_for, ActionView, CycleView, RefreshEvent,
};

verus! {

/// Left and Right move by exactly one card, whatever the number of columns:
/// Left from card `index` selects `index - 1` (the first card stays put),
/// Right selects `index + 1` (the last card wraps to the first), and Left
/// undoes Right except at the ends.
pub proof fn law_left_and_right_move_one_card(n: int, columns: int, other_columns: int, index: int)
    requires
        n >= 1,
        columns >= 1,
        other_columns >= 1,
        0 <= index < n,
    ensures
        index >= 1 ==> moved_index(n, columns, index, NavKey::Left) == index - 1,
        index == 0 ==> moved_index(n, columns, index, NavKey::Left) == 0,
        moved_index(n, columns, index, NavKey::Left) == moved_index(n, other_columns, index, NavKey::Left),
        index + 1 < n ==> moved_index(n, columns, index, NavKey::Right) == index + 1,
        index + 1 == n ==> moved_index(n, columns, index, NavKey::Right) == 0,
        moved_index(n, columns, index, NavKey::Right) == moved_index(n, other_columns, index, NavKey::Right),
        index + 1 < n ==> moved_index(n, columns, moved_index(n, columns, index, NavKey::Right), NavKey::Left)
            == index,
{
    if index + 1 < n {
        assert((index + 1) % n == index + 1) by (nonlinear_arith)
            requires
                0 <= index + 1 < n,
        ;
    } else {
        assert((index + 1) % n == 0) by (nonlinear_arith)
            requires
                index + 1 == n,
                n >= 1,
        ;
    }
}

/// Up and Down move by one row of `columns` cards: Up from `index` selects
/// `index - columns`, or the first card from the first row; Down selects
/// `index + columns`, or the last card when that is past the end. Enter and
/// Escape leave the selection where it is.
pub proof fn law_up_and_down_move_one_row(n: int, columns: int, index: int)
    requires
        n >= 1,
        columns >= 1,
        0 <= index < n,
    ensures
        index >= columns ==> moved_index(n, columns, index, NavKey::Up) == index - columns,
        index < columns ==> moved_index(n, columns, index, NavKey::Up) == 0,
        index + columns < n ==> moved_index(n, columns, index, NavKey::Down) == index + columns,
        index + columns >= n ==> moved_index(n, columns, index, NavKey::Down) == n - 1,
        moved_index(n, columns, index, NavKey::Return) == index,
        moved_index(n, columns, index, NavKey::Escape) == index,
{
}

/// A snapshot is held back only when the last emitted content shows the
/// same items with the same status: when nothing was emitted yet, or the
/// status differs from the last emitted one, a snapshot with the asked-for
/// status and the next revision is sent. Every sent snapshot shows the
/// items most recent first with the asked-for status.
pub proof fn law_changed_status_is_sent(pre: BackendView, items: Seq<WindowView>, status: UiStatus)
    requires
        pre.revision < u64::MAX,
    ensures
        ({
            let (post, snap) = emit_outcome(pre, items, status);
            &&& (pre.last_emitted is None || pre.last_emitted->0.status != status) ==> (snap matches Some(
                s,
            ) && s.status == status && s.revision == pre.revision + 1 && post.revision == pre.revision
                + 1)
            &&& snap is None ==> (pre.last_emitted matches Some(l) && l.status == status && l.items
                == stable_sort(items) && post == pre)
            &&& snap matches Some(s) ==> s.status == status && s.items == stable_sort(items)
            &&& post.last_emitted matches Some(l) && l.status == status && l.items == stable_sort(items)
        }),
{
}

/// Whatever a finishing step from a degraded cycle does, the content it
/// leaves as last emitted, and any snapshot it sends, carry the
/// `BackendDegraded` status.
proof fn lemma_degraded_finish(pre: BackendView, c: CycleView, post: BackendView, act: ActionView)
    requires
        c.degraded,
        finish_relation(pre, c, post, act),
    ensures
        act is Finished,
        post.last_emitted matches Some(l) && l.status == UiStatus::BackendDegraded,
        act matches ActionView::Finished(Some(s), _) ==> s.status == UiStatus::BackendDegraded,
        status_consistent(pre) ==> post.last_status == UiStatus::BackendDegraded,
{
}

/// The status a refresh leaves as last emitted: `BackendDegraded` when some
/// fetch failed, else `Empty` exactly when no window is listed, else
/// `Ready`; a sent snapshot shows that same content.
pub proof fn law_refresh_status_follows_the_list(pre: BackendView, c: CycleView, post: BackendView, act: ActionView)
    requires
        finish_relation(pre, c, post, act),
    ensures
        post.last_emitted matches Some(l) && l.status == (if c.degraded {
            UiStatus::BackendDegraded
        } else if l.items.len() == 0 {
            UiStatus::Empty
        } else {
            UiStatus::Ready
        }),
        act matches ActionView::Finished(Some(s), _) ==> post.last_emitted == Some(
            content_of(s),
        ),
{
    match c.clients {
        Some(cs) => {
            let act_addr = active_of(pre);
            let shown = shown_clients(cs, act_addr);
            let items = choose|items: Seq<WindowView>|
                #![trigger items_for_clients(items, shown, act_addr, pre)]
                items_for_clients(items, shown, act_addr, pre) && {
                    let mid = BackendView {
                        last_successful_items: items,
                        ..retained(pre, client_addresses(shown))
                    };
                    let (p, snap) = emit_outcome(
                        mid,
                        stable_sort(items),
                        status_for(c.degraded, items.len() == 0),
                    );
                    post == p && act == ActionView::Finished(
                        snap,
                        if client_addresses(shown) != pre.last_gc_addresses {
                            Some(client_addresses(shown))
                        } else {
                            None
                        },
                    )
                };
            lemma_stable_sort_sorted(items);
            lemma_stable_sort_sorted(stable_sort(items));
        },
        None => {
            let items = choose|items: Seq<WindowView>|
                #![trigger cached_items_refreshed(pre, items)]
                cached_items_refreshed(pre, items) && {
                    let (p, snap) = emit_outcome(
                        pre,
                        stable_sort(items),
                        status_for(c.degraded, items.len() == 0),
                    );
                    post == p && act == ActionView::Finished(snap, None)
                };
            lemma_stable_sort_sorted(items);
            lemma_stable_sort_sorted(stable_sort(items));
        },
    }
}

/// A refresh whose active-window fetch failed is degraded: it starts
/// degraded, and whether it finishes at once or after fetching the monitor
/// names, the content it leaves as last emitted and any snapshot it sends
/// carry the `BackendDegraded` status (which a consistent state then
/// records).
pub proof fn law_failed_active_fetch_degrades(
    pre: BackendView,
    clients: Option<Seq<ClientView>>,
    event: RefreshEvent,
    post: BackendView,
    post_c: CycleView,
    act: ActionView,
)
    ensures
        started_cycle(clients, None).degraded,
        active_step(pre, started_cycle(clients, None), post, post_c, act) ==> {
            &&& act is Finished
            &&& post.last_emitted matches Some(l) && l.status == UiStatus::BackendDegraded
            &&& act matches ActionView::Finished(Some(s), _) ==> s.status == UiStatus::BackendDegraded
            &&& status_consistent(pre) ==> post.last_status == UiStatus::BackendDegraded
        },
        resume_relation(pre, started_cycle(clients, None), event, post, post_c, act) ==> {
            &&& act is Finished
            &&& post.last_emitted matches Some(l) && l.status == UiStatus::BackendDegraded
            &&& act matches ActionView::Finished(Some(s), _) ==> s.status == UiStatus::BackendDegraded
        },
{
    let c = started_cycle(clients, None);
    if active_step(pre, c, post, post_c, act) {
        assert(job_step(pre, c, None, post, post_c, act));
        lemma_degraded_finish(pre, c, post, act);
    }
    if resume_relation(pre, c, event, post, post_c, act) {
        match event {
            RefreshEvent::MonitorsFetched(m) => {
                let mid = monitors_refreshed(pre, fetched_view(m));
                let c2 = cycle_at(c, c.degraded || m is None, c.stage);
                assert(active_step(mid, c2, post, post_c, act));
                assert(job_step(mid, c2, None, post, post_c, act));
                lemma_degraded_finish(mid, c2, post, act);
            },
            RefreshEvent::ThumbnailJobSent(_) => {},
        }
    }
}

/// A card's state line: a ready preview says "Preview ready", except on
/// the active window's card, which says "Active window"; no other card
/// says "Active window". Otherwise the line names the preview's state.
pub proof fn law_only_the_active_card_says_active(t: ThumbnailState, is_active: bool)
    ensures
        state_text_spec(ThumbnailState::Ready, false) == "Preview ready"@,
        state_text_spec(ThumbnailState::Ready, true) == "Active window"@,
        state_text_spec(t, is_active) == "Active window"@ ==> is_active && t == ThumbnailState::Ready,
        state_text_spec(ThumbnailState::Pending, is_active) == "Preview loading"@,
        state_text_spec(ThumbnailState::Missing, is_active) == "Preview unavailable"@,
        state_text_spec(ThumbnailState::Failed, is_active) == "Preview capture failed"@,
{
    reveal_strlit("Preview ready");
    reveal_strlit("Active window");
    reveal_strlit("Preview loading");
    reveal_strlit("Preview unavailable");
    reveal_strlit("Preview capture failed");
    if t == ThumbnailState::Ready && !is_active {
        assert("Preview ready"@[0] != "Active window"@[0]);
    }
    if t == ThumbnailState::Pending {
        assert("Preview loading"@[0] != "Active window"@[0]);
    }
    if t == ThumbnailState::Missing {
        assert("Preview unavailable"@[0] != "Active window"@[0]);
    }
    if t == ThumbnailState::Failed {
        assert("Preview capture failed"@[0] != "Active window"@[0]);
    }
}

/// A thumbnail is the PNG of the frame's RGBA image, `width` wide and
/// `height` tall as the frame is, scaled to the target size.
pub proof fn law_thumbnail_scales_the_frame_image(
    raw: Seq<u8>,
    width: u32,
    height: u32,
    stride: u32,
    target_width: u32,
    target_height: u32,
)
    ensures
        thumbnail_png(raw, width, height, stride, target_width, target_height) == png_encoding(
            triangle_resized(
                rgba_rows(raw, width as nat, height as nat, stride as nat),
                width,
                height,
                target_width,
                target_height,
            ),
            target_width,
            target_height,
        ),
{
}

} // verus!
