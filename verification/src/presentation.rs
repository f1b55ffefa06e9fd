//! Texts and flags the overlay shows for a snapshot.
use vstd::prelude::*;
use vstd::string::*;
use crate::model::{ThumbnailState, UiStatus, WindowData, WindowView};
use crate::paths::{thumbnail_path, thumbnail_path_spec};

verus! {

/// The status line for `status`, given whether the list is empty.
pub open spec fn status_text_spec(status: UiStatus, is_empty: bool) -> Seq<char> {
    match status {
        UiStatus::Loading => "Loading windows and previews..."@,
        UiStatus::Ready => if is_empty {
            "No windows available."@
        } else {
            "Use arrows or Tab to move, Enter to switch."@
        },
        UiStatus::Empty => "No windows available."@,
        UiStatus::BackendDegraded => "Limited backend data. Fallback metadata is still usable."@,
    }
}

/// The status line the overlay shows.
pub fn status_text(status: UiStatus, is_empty: bool) -> (text: &'static str)
    ensures
        text@ == status_text_spec(status, is_empty),
{
    match status {
        UiStatus::Loading => "Loading windows and previews...",
        UiStatus::Ready => if is_empty {
            "No windows available."
        } else {
            "Use arrows or Tab to move, Enter to switch."
        },
        UiStatus::Empty => "No windows available.",
        UiStatus::BackendDegraded => "Limited backend data. Fallback metadata is still usable.",
    }
}

/// The text of the decimal digit `d`.
pub open spec fn digit_text(d: int) -> Seq<char> {
    if d == 0 {
        "0"@
    } else if d == 1 {
        "1"@
    } else if d == 2 {
        "2"@
    } else if d == 3 {
        "3"@
    } else if d == 4 {
        "4"@
    } else if d == 5 {
        "5"@
    } else if d == 6 {
        "6"@
    } else if d == 7 {
        "7"@
    } else if d == 8 {
        "8"@
    } else {
        "9"@
    }
}

/// The decimal digits of `n`, without leading zeros.
pub open spec fn digits(n: nat) -> Seq<char>
    decreases n,
{
    if n < 10 {
        digit_text(n as int)
    } else {
        digits(n / 10) + digit_text((n % 10) as int)
    }
}

/// The decimal text of `n`, as `i32`'s `Display` writes it.
pub open spec fn decimal(n: int) -> Seq<char> {
    if n < 0 {
        "-"@ + digits((-n) as nat)
    } else {
        digits(n as nat)
    }
}

fn digit_str(d: u64) -> (s: &'static str)
    requires
        d < 10,
    ensures
        s@ == digit_text(d as int),
{
    match d {
        0 => "0",
        1 => "1",
        2 => "2",
        3 => "3",
        4 => "4",
        5 => "5",
        6 => "6",
        7 => "7",
        8 => "8",
        _ => "9",
    }
}

fn push_digits(out: &mut String, n: u64)
    ensures
        final(out)@ == old(out)@ + digits(n as nat),
    decreases n,
{
    if n >= 10 {
        push_digits(out, n / 10);
    }
    out.append(digit_str(n % 10));
    assert(out@ =~= old(out)@ + digits(n as nat));
}

/// Appends the decimal text of `n` to `out`.
pub fn push_decimal(out: &mut String, n: i32)
    ensures
        final(out)@ == old(out)@ + decimal(n as int),
{
    if n < 0 {
        out.append("-");
        let magnitude: u64 = (0i64 - (n as i64)) as u64;
        push_digits(out, magnitude);
        assert(out@ =~= old(out)@ + decimal(n as int));
    } else {
        push_digits(out, n as u64);
    }
}

/// `parts` joined with `sep` between neighbours.
pub open spec fn joined(parts: Seq<Seq<char>>, sep: Seq<char>) -> Seq<char>
    decreases parts.len(),
{
    if parts.len() == 0 {
        Seq::empty()
    } else if parts.len() == 1 {
        parts[0]
    } else {
        joined(parts.drop_last(), sep) + sep + parts.last()
    }
}

/// The metadata segments of a card: active, monitor and workspace as far as
/// known, else the class.
pub open spec fn meta_segments(item: WindowView) -> Seq<Seq<char>> {
    let active = if item.is_active {
        seq!["Active"@]
    } else {
        Seq::empty()
    };
    let monitor = match item.monitor_name {
        Some(m) => seq!["Monitor "@ + m],
        None => Seq::empty(),
    };
    let workspace = match item.workspace_id {
        Some(w) => seq!["Workspace "@ + decimal(w as int)],
        None => Seq::empty(),
    };
    let all = active + monitor + workspace;
    if all.len() == 0 {
        seq![item.class]
    } else {
        all
    }
}

/// The metadata line of a card.
pub open spec fn describe_window_spec(item: WindowView) -> Seq<char> {
    joined(meta_segments(item), " / "@)
}

/// The metadata line of a card: its segments joined with " / ".
pub fn describe_window(item: &WindowData) -> (text: String)
    ensures
        text@ == describe_window_spec(item@),
{
    let mut parts: Vec<String> = Vec::new();
    if item.is_active {
        parts.push(String::from_str("Active"));
    }
    match &item.monitor_name {
        Some(m) => {
            let mut seg = String::from_str("Monitor ");
            seg.append(m.as_str());
            parts.push(seg);
        },
        None => {},
    }
    match item.workspace_id {
        Some(w) => {
            let mut seg = String::from_str("Workspace ");
            push_decimal(&mut seg, w);
            parts.push(seg);
        },
        None => {},
    }
    if parts.len() == 0 {
        parts.push(item.class.clone());
    }
    let ghost segs = crate::table::strings_view(parts@);
    assert(segs =~= meta_segments(item@));
    let mut text = String::new();
    let mut i: usize = 0;
    while i < parts.len()
        invariant
            i <= parts@.len(),
            segs == crate::table::strings_view(parts@),
            text@ == joined(segs.take(i as int), " / "@),
        decreases parts@.len() - i,
    {
        assert(segs.take(i as int + 1).drop_last() =~= segs.take(i as int));
        if i > 0 {
            text.append(" / ");
        }
        text.append(parts[i].as_str());
        if i == 0 {
            assert(text@ =~= joined(segs.take(1), " / "@));
        }
        i = i + 1;
    }
    assert(segs.take(segs.len() as int) =~= segs);
    text
}

/// Texts and flags of one card.
#[derive(Clone, Debug)]
pub struct CardView {
    pub title: String,
    /// "title (address)".
    pub tooltip: String,
    pub meta: String,
    pub icon_name: String,
    /// The preview file to show, when the preview is ready.
    pub preview_path: Option<String>,
    pub state_text: &'static str,
    pub pending: bool,
    pub missing: bool,
    pub failed: bool,
    pub selected: bool,
    pub active: bool,
}

/// The state line of a card.
pub open spec fn state_text_spec(t: ThumbnailState, is_active: bool) -> Seq<char> {
    match t {
        ThumbnailState::Ready => if is_active {
            "Active window"@
        } else {
            "Preview ready"@
        },
        ThumbnailState::Pending => "Preview loading"@,
        ThumbnailState::Missing => "Preview unavailable"@,
        ThumbnailState::Failed => "Preview capture failed"@,
    }
}

/// What the card of `item` shows; `selected` tells whether it is the
/// selected card.
pub fn card_view(item: &WindowData, selected: bool) -> (card: CardView)
    ensures
        card.title@ == item.title@,
        card.tooltip@ == item.title@ + " ("@ + item.address@ + ")"@,
        card.meta@ == describe_window_spec(item@),
        card.icon_name@ == (if item.class@.len() == 0 {
            "application-x-executable"@
        } else {
            item.class@
        }),
        match card.preview_path {
            Some(p) => item.thumbnail_state == ThumbnailState::Ready && p@ == thumbnail_path_spec(
                item.address@,
            ),
            None => item.thumbnail_state != ThumbnailState::Ready,
        },
        card.state_text@ == state_text_spec(item.thumbnail_state, item.is_active),
        card.pending == (item.thumbnail_state == ThumbnailState::Pending),
        card.missing == (item.thumbnail_state == ThumbnailState::Missing),
        card.failed == (item.thumbnail_state == ThumbnailState::Failed),
        card.selected == selected,
        card.active == item.is_active,
{
    let mut tooltip = item.title.clone();
    tooltip.append(" (");
    tooltip.append(item.address.as_str());
    tooltip.append(")");
    let icon_name = if item.class.as_str().is_empty() {
        String::from_str("application-x-executable")
    } else {
        item.class.clone()
    };
    let (preview_path, state_text) = match item.thumbnail_state {
        ThumbnailState::Ready => (
            Some(thumbnail_path(item.address.as_str())),
            if item.is_active {
                "Active window"
            } else {
                "Preview ready"
            },
        ),
        ThumbnailState::Pending => (None, "Preview loading"),
        ThumbnailState::Missing => (None, "Preview unavailable"),
        ThumbnailState::Failed => (None, "Preview capture failed"),
    };
    CardView {
        title: item.title.clone(),
        tooltip,
        meta: describe_window(item),
        icon_name,
        preview_path,
        state_text,
        pending: item.thumbnail_state == ThumbnailState::Pending,
        missing: item.thumbnail_state == ThumbnailState::Missing,
        failed: item.thumbnail_state == ThumbnailState::Failed,
        selected,
        active: item.is_active,
    }
}

} // verus!
