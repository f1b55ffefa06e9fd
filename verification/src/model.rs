//! Data exchanged between the backend, the workers and the overlay.
use vstd::prelude::*;
use vstd::std_specs::cmp::PartialEqSpecImpl;

verus! {

/// Availability of the preview of one window.
#[derive(Clone, Copy, Debug, PartialEq, Eq, Structural)]
pub enum ThumbnailState {
    Pending,
    Ready,
    Missing,
    Failed,
}

/// What the overlay should say about the backend.
#[derive(Clone, Copy, Debug, PartialEq, Eq, Structural)]
pub enum UiStatus {
    Loading,
    Ready,
    Empty,
    BackendDegraded,
}

/// One window as the overlay shows it.
#[derive(Clone, Debug)]
pub struct WindowData {
    pub address: String,
    pub title: String,
    pub class: String,
    pub is_active: bool,
    pub monitor_name: Option<String>,
    pub workspace_id: Option<i32>,
    pub last_focus_seq: u64,
    pub thumbnail_state: ThumbnailState,
}

/// Mathematical value of a [`WindowData`].
pub struct WindowView {
    pub address: Seq<char>,
    pub title: Seq<char>,
    pub class: Seq<char>,
    pub is_active: bool,
    pub monitor_name: Option<Seq<char>>,
    pub workspace_id: Option<i32>,
    pub last_focus_seq: u64,
    pub thumbnail_state: ThumbnailState,
}

/// The characters of an optional string.
pub open spec fn opt_chars(s: Option<String>) -> Option<Seq<char>> {
    match s {
        Some(v) => Some(v@),
        None => None,
    }
}

impl View for WindowData {
    type V = WindowView;

    open spec fn view(&self) -> WindowView {
        WindowView {
            address: self.address@,
            title: self.title@,
            class: self.class@,
            is_active: self.is_active,
            monitor_name: opt_chars(self.monitor_name),
            workspace_id: self.workspace_id,
            last_focus_seq: self.last_focus_seq,
            thumbnail_state: self.thumbnail_state,
        }
    }
}

/// The views of a sequence of windows.
pub open spec fn windows_view(items: Seq<WindowData>) -> Seq<WindowView> {
    items.map_values(|w: WindowData| w@)
}

/// The addresses of a sequence of windows, in order.
pub open spec fn addresses_of(items: Seq<WindowView>) -> Seq<Seq<char>> {
    items.map_values(|w: WindowView| w.address)
}

/// Everything the overlay needs to draw one frame.
#[derive(Clone, Debug)]
pub struct UiSnapshot {
    pub items: Vec<WindowData>,
    pub selected_address: Option<String>,
    pub status: UiStatus,
    pub revision: u64,
}

/// Mathematical value of a [`UiSnapshot`].
pub struct SnapshotView {
    pub items: Seq<WindowView>,
    pub selected_address: Option<Seq<char>>,
    pub status: UiStatus,
    pub revision: u64,
}

impl View for UiSnapshot {
    type V = SnapshotView;

    open spec fn view(&self) -> SnapshotView {
        SnapshotView {
            items: windows_view(self.items@),
            selected_address: opt_chars(self.selected_address),
            status: self.status,
            revision: self.revision,
        }
    }
}

/// A request to focus the window at `address`.
#[derive(Clone, Debug)]
pub struct FocusCommand {
    pub address: String,
}

/// A request to capture the preview of `address` from `monitor_name`.
#[derive(Clone, Debug)]
pub struct ThumbnailJob {
    pub address: String,
    pub monitor_name: String,
}

/// What the thumbnail worker reports back for one job.
#[derive(Clone, Debug)]
pub struct ThumbnailResult {
    pub address: String,
    pub monitor_name: String,
    pub success: bool,
}

/// Workspace record of `hyprctl clients -j`.
#[derive(Clone, Debug)]
pub struct HyprctlWorkspace {
    pub id: i32,
}

/// Client record of `hyprctl clients -j`.
#[derive(Clone, Debug)]
pub struct HyprctlClient {
    pub address: String,
    pub title: String,
    pub class: String,
    pub mapped: bool,
    pub monitor: Option<i32>,
    pub workspace: Option<HyprctlWorkspace>,
}

/// Mathematical value of a [`HyprctlClient`].
pub struct ClientView {
    pub address: Seq<char>,
    pub title: Seq<char>,
    pub class: Seq<char>,
    pub mapped: bool,
    pub monitor: Option<i32>,
    pub workspace_id: Option<i32>,
}

impl View for HyprctlClient {
    type V = ClientView;

    open spec fn view(&self) -> ClientView {
        ClientView {
            address: self.address@,
            title: self.title@,
            class: self.class@,
            mapped: self.mapped,
            monitor: self.monitor,
            workspace_id: match self.workspace {
                Some(w) => Some(w.id),
                None => None,
            },
        }
    }
}

/// The views of a sequence of clients.
pub open spec fn clients_view(clients: Seq<HyprctlClient>) -> Seq<ClientView> {
    clients.map_values(|c: HyprctlClient| c@)
}

/// Record of `hyprctl activewindow -j`.
#[derive(Clone, Debug)]
pub struct HyprctlActiveWindow {
    pub address: String,
    pub monitor: i32,
}

/// Record of `hyprctl monitors -j`.
#[derive(Clone, Debug)]
pub struct HyprctlMonitor {
    pub id: i32,
    pub name: String,
}


/// Whether two optional strings hold the same characters.
pub fn same_opt_string(a: &Option<String>, b: &Option<String>) -> (same: bool)
    ensures
        same == (opt_chars(*a) == opt_chars(*b)),
{
    match (a, b) {
        (Some(x), Some(y)) => *x == *y,
        (None, None) => true,
        _ => false,
    }
}

/// A copy of an optional string.
pub fn copy_opt_string(a: &Option<String>) -> (c: Option<String>)
    ensures
        opt_chars(c) == opt_chars(*a),
{
    match a {
        Some(x) => Some(x.clone()),
        None => None,
    }
}

impl WindowData {
    /// Whether both windows hold the same values.
    pub fn same_as(&self, other: &WindowData) -> (same: bool)
        ensures
            same == (self@ == other@),
    {
        let workspace_same = match (self.workspace_id, other.workspace_id) {
            (Some(x), Some(y)) => x == y,
            (None, None) => true,
            _ => false,
        };
        self.address == other.address && self.title == other.title && self.class == other.class
            && self.is_active == other.is_active && same_opt_string(
            &self.monitor_name,
            &other.monitor_name,
        ) && workspace_same && self.last_focus_seq == other.last_focus_seq
            && self.thumbnail_state == other.thumbnail_state
    }

    /// A copy of the window.
    pub fn duplicate(&self) -> (copy: WindowData)
        ensures
            copy@ == self@,
    {
        WindowData {
            address: self.address.clone(),
            title: self.title.clone(),
            class: self.class.clone(),
            is_active: self.is_active,
            monitor_name: copy_opt_string(&self.monitor_name),
            workspace_id: self.workspace_id,
            last_focus_seq: self.last_focus_seq,
            thumbnail_state: self.thumbnail_state,
        }
    }
}

/// Whether both lists hold the same windows in the same order.
pub fn same_windows(a: &Vec<WindowData>, b: &Vec<WindowData>) -> (same: bool)
    ensures
        same == (windows_view(a@) == windows_view(b@)),
{
    if a.len() != b.len() {
        assert(windows_view(a@).len() != windows_view(b@).len());
        return false;
    }
    let mut i: usize = 0;
    while i < a.len()
        invariant
            i <= a@.len(),
            a@.len() == b@.len(),
            forall|j: int| 0 <= j < i ==> a@[j]@ == b@[j]@,
        decreases a@.len() - i,
    {
        if !a[i].same_as(&b[i]) {
            assert(windows_view(a@)[i as int] != windows_view(b@)[i as int]);
            return false;
        }
        i = i + 1;
    }
    assert(windows_view(a@) =~= windows_view(b@));
    true
}

/// A copy of a list of windows.
pub fn duplicate_windows(a: &Vec<WindowData>) -> (copy: Vec<WindowData>)
    ensures
        windows_view(copy@) == windows_view(a@),
{
    let mut out: Vec<WindowData> = Vec::new();
    let mut i: usize = 0;
    while i < a.len()
        invariant
            i <= a@.len(),
            windows_view(out@) == windows_view(a@).take(i as int),
            out@.len() == i,
        decreases a@.len() - i,
    {
        let ghost before = out@;
        let d = a[i].duplicate();
        out.push(d);
        assert forall|k: int| 0 <= k < out@.len() implies #[trigger] windows_view(out@)[k]
            == windows_view(a@).take(i as int + 1)[k] by {
            if k < i {
                assert(out@[k] == before[k]);
                assert(windows_view(before)[k] == windows_view(a@).take(i as int)[k]);
            }
        }
        assert(windows_view(out@) =~= windows_view(a@).take(i as int + 1));
        i = i + 1;
    }
    assert(windows_view(a@).take(a@.len() as int) =~= windows_view(a@));
    out
}

impl PartialEq for WindowData {
    fn eq(&self, other: &Self) -> (same: bool) {
        self.same_as(other)
    }
}

impl Eq for WindowData {
}

impl PartialEqSpecImpl for WindowData {
    open spec fn obeys_eq_spec() -> bool {
        true
    }

    open spec fn eq_spec(&self, other: &WindowData) -> bool {
        self@ == other@
    }
}

impl PartialEq for UiSnapshot {
    fn eq(&self, other: &Self) -> (same: bool) {
        same_windows(&self.items, &other.items) && same_opt_string(
            &self.selected_address,
            &other.selected_address,
        ) && self.status == other.status && self.revision == other.revision
    }
}

impl Eq for UiSnapshot {
}

impl PartialEqSpecImpl for UiSnapshot {
    open spec fn obeys_eq_spec() -> bool {
        true
    }

    open spec fn eq_spec(&self, other: &UiSnapshot) -> bool {
        self@ == other@
    }
}
} // verus!
