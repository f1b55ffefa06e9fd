//! Keyboard navigation in the responsive grid, and how a new snapshot is laid
//! over the cards already on screen.
use vstd::prelude::*;
use crate::backend::position_of;
use crate::config::{DEFAULT_COLUMNS, MAX_COLUMNS, UI_CARD_WIDTH, UI_GRID_SPACING, UI_OUTER_MARGIN};
use crate::model::{addresses_of, copy_opt_string, opt_chars, windows_view, UiSnapshot};
use crate::table::strings_view;

verus! {

/// The number of grid columns for a window `window_width` pixels wide that
/// shows `item_count` cards.
pub open spec fn columns_for(window_width: int, item_count: int) -> int {
    if item_count == 0 {
        1
    } else if window_width <= 0 {
        let d = if DEFAULT_COLUMNS < item_count {
            DEFAULT_COLUMNS as int
        } else {
            item_count
        };
        if d < 1 {
            1
        } else {
            d
        }
    } else {
        let usable = if window_width - 2 * UI_OUTER_MARGIN > UI_CARD_WIDTH {
            window_width - 2 * UI_OUTER_MARGIN
        } else {
            UI_CARD_WIDTH as int
        };
        let span = if UI_CARD_WIDTH + UI_GRID_SPACING > 1 {
            UI_CARD_WIDTH + UI_GRID_SPACING
        } else {
            1
        };
        let estimated = if usable / span > 1 {
            usable / span
        } else {
            1
        };
        let upper = if (MAX_COLUMNS as int) < item_count {
            MAX_COLUMNS as int
        } else {
            item_count
        };
        if estimated < 1 {
            1
        } else if estimated > upper {
            upper
        } else {
            estimated
        }
    }
}

/// Estimates how many cards fit in one row of the grid.
pub fn estimated_columns(window_width: i32, item_count: usize) -> (columns: usize)
    ensures
        columns == columns_for(window_width as int, item_count as int),
        1 <= columns,
        item_count > 0 ==> columns <= item_count,
{
    if item_count == 0 {
        return 1;
    }
    if window_width <= 0 {
        let d = if DEFAULT_COLUMNS < item_count {
            DEFAULT_COLUMNS
        } else {
            item_count
        };
        return if d < 1 {
            1
        } else {
            d
        };
    }
    let usable = if window_width - 2 * UI_OUTER_MARGIN > UI_CARD_WIDTH {
        window_width - 2 * UI_OUTER_MARGIN
    } else {
        UI_CARD_WIDTH
    };
    let span = if UI_CARD_WIDTH + UI_GRID_SPACING > 1 {
        UI_CARD_WIDTH + UI_GRID_SPACING
    } else {
        1
    };
    let estimated: usize = if usable / span > 1 {
        (usable / span) as usize
    } else {
        1
    };
    let upper = if MAX_COLUMNS < item_count {
        MAX_COLUMNS
    } else {
        item_count
    };
    if estimated < 1 {
        1
    } else if estimated > upper {
        upper
    } else {
        estimated
    }
}

/// The keys the overlay reacts to.
#[derive(Clone, Copy, Debug, PartialEq, Eq, Structural)]
pub enum NavKey {
    Right,
    Tab,
    Left,
    Down,
    Up,
    Return,
    Escape,
    Alt,
    Other,
}

/// What a key press asks the overlay to do.
#[derive(Clone, Debug)]
pub struct KeyResponse {
    /// Index of the card to select and focus, if any.
    pub select_index: Option<usize>,
    /// Address to hand to the focus worker, if any.
    pub focus_address: Option<String>,
    /// Whether to hide the overlay.
    pub hide_overlay: bool,
    /// Whether the key was handled (and must not propagate).
    pub stop: bool,
}

/// Position of the first occurrence of `s` in `order`; the length when
/// there is none.
pub open spec fn first_position(order: Seq<Seq<char>>, s: Seq<char>) -> int
    decreases order.len(),
{
    if order.len() == 0 {
        0
    } else if order[0] == s {
        0
    } else {
        1 + first_position(order.drop_first(), s)
    }
}

/// The index of the selected card: the first card with the selected
/// address, else the first card.
pub open spec fn selection_index(order: Seq<Seq<char>>, selected: Option<Seq<char>>) -> int {
    match selected {
        Some(s) => if order.contains(s) {
            first_position(order, s)
        } else {
            0
        },
        None => 0,
    }
}

/// The card index after moving with `key` from `index` among `n` cards laid
/// out in `columns` columns. Keys that do not move keep the index.
pub open spec fn moved_index(n: int, columns: int, index: int, key: NavKey) -> int {
    match key {
        NavKey::Right | NavKey::Tab => (index + 1) % n,
        NavKey::Left => if index >= 1 {
            index - 1
        } else {
            0
        },
        NavKey::Down => if index + columns < n - 1 {
            index + columns
        } else {
            n - 1
        },
        NavKey::Up => if index >= columns {
            index - columns
        } else {
            0
        },
        _ => index,
    }
}

/// Whether the press of `key` is handled when cards are shown.
pub open spec fn key_handled(key: NavKey) -> bool {
    !(key is Alt || key is Other)
}

/// The optional index as a mathematical value.
pub open spec fn opt_index(i: Option<usize>) -> Option<int> {
    match i {
        Some(v) => Some(v as int),
        None => None,
    }
}

proof fn lemma_first_position(order: Seq<Seq<char>>, s: Seq<char>, k: int)
    requires
        0 <= k < order.len(),
        order[k] == s,
        forall|j: int| 0 <= j < k ==> order[j] != s,
    ensures
        first_position(order, s) == k,
    decreases k,
{
    if k > 0 {
        let t = order.drop_first();
        assert forall|j: int| 0 <= j < k - 1 implies t[j] != s by {
            assert(t[j] == order[j + 1]);
        }
        lemma_first_position(t, s, k - 1);
    }
}

/// The index of the card whose address is `selected`, else the first card.
pub fn current_index(order: &Vec<String>, selected: &Option<String>) -> (index: usize)
    ensures
        index == selection_index(strings_view(order@), opt_chars(*selected)),
        order@.len() > 0 ==> index < order@.len(),
{
    match selected {
        Some(s) => match position_of(order, s) {
            Some(k) => {
                proof {
                    let o = strings_view(order@);
                    assert(o[k as int] == s@);
                    assert(o.contains(s@));
                    assert forall|j: int| 0 <= j < k implies o[j] != s@ by {}
                    lemma_first_position(o, s@, k as int);
                }
                k
            },
            None => 0,
        },
        None => 0,
    }
}

/// Reacts to a key press on the overlay that shows the cards `order`, with
/// `selected` the selected address and `window_width` the overlay width.
/// Without cards only Escape and Enter are handled, and both hide the
/// overlay. With cards, navigation keys select the card they move to, Enter
/// focuses the selected address and hides the overlay, and Escape hides it.
pub fn key_pressed(order: &Vec<String>, selected: &Option<String>, window_width: i32, key: NavKey) -> (r: KeyResponse)
    ensures
        order@.len() == 0 ==> r.select_index is None && r.focus_address is None && r.hide_overlay == (
        key is Escape || key is Return) && r.stop == (key is Escape || key is Return),
        order@.len() > 0 ==> {
            let n = order@.len() as int;
            let index = selection_index(strings_view(order@), opt_chars(*selected));
            let columns = columns_for(window_width as int, n);
            &&& r.stop == key_handled(key)
            &&& opt_index(r.select_index) == (if key_handled(key) {
                Some(moved_index(n, columns, index, key))
            } else {
                None::<int>
            })
            &&& r.hide_overlay == (key is Return || key is Escape)
            &&& opt_chars(r.focus_address) == (if key is Return {
                opt_chars(*selected)
            } else {
                None::<Seq<char>>
            })
        },
        r.select_index matches Some(i) ==> i < order@.len(),
{
    let n = order.len();
    if n == 0 {
        let close = match key {
            NavKey::Escape | NavKey::Return => true,
            _ => false,
        };
        return KeyResponse { select_index: None, focus_address: None, hide_overlay: close, stop: close };
    }
    let columns = estimated_columns(window_width, n);
    let mut index = current_index(order, selected);
    let mut handled = true;
    let mut close = false;
    let mut focus_address: Option<String> = None;
    match key {
        NavKey::Right | NavKey::Tab => {
            index = (index + 1) % n;
        },
        NavKey::Left => {
            index = if index >= 1 {
                index - 1
            } else {
                0
            };
        },
        NavKey::Down => {
            index = if columns < n - 1 - index {
                index + columns
            } else {
                n - 1
            };
        },
        NavKey::Up => {
            index = if index >= columns {
                index - columns
            } else {
                0
            };
        },
        NavKey::Return => {
            focus_address = copy_opt_string(selected);
            close = true;
        },
        NavKey::Escape => {
            close = true;
        },
        _ => {
            handled = false;
        },
    }
    let select_index = if handled {
        Some(index)
    } else {
        None
    };
    KeyResponse { select_index, focus_address, hide_overlay: close, stop: handled }
}

/// Reacts to a key release: releasing Alt focuses the selected address and
/// hides the overlay; other releases do nothing.
pub fn key_released(selected: &Option<String>, key: NavKey) -> (r: KeyResponse)
    ensures
        r.select_index is None,
        r.stop == false,
        r.hide_overlay == (key is Alt),
        opt_chars(r.focus_address) == (if key is Alt {
            opt_chars(*selected)
        } else {
            None::<Seq<char>>
        }),
{
    match key {
        NavKey::Alt => KeyResponse {
            select_index: None,
            focus_address: copy_opt_string(selected),
            hide_overlay: true,
            stop: false,
        },
        _ => KeyResponse { select_index: None, focus_address: None, hide_overlay: false, stop: false },
    }
}


/// How the grid is re-laid after a snapshot.
#[derive(Clone, Copy, Debug, PartialEq, Eq, Structural)]
pub enum Relayout {
    /// Remove the cards of the previous order, then insert those of the new
    /// order.
    Rebuild,
    /// Insert the cards of the new order.
    AppendAll,
    /// Leave the grid as it is.
    Keep,
}

/// How to lay a snapshot over the cards on screen.
#[derive(Clone, Debug)]
pub struct SnapshotPlan {
    /// Card addresses in the order of the snapshot.
    pub new_order: Vec<String>,
    /// Whether that order differs from the one on screen.
    pub order_changed: bool,
    /// Cached cards whose window is gone.
    pub stale: Vec<String>,
    /// Addresses that need a new card.
    pub created: Vec<String>,
    pub relayout: Relayout,
    /// The address to select.
    pub selection: Option<String>,
    /// Index of the selected card in the new order.
    pub selected_index: Option<usize>,
    /// Whether the grid is shown at all.
    pub grid_visible: bool,
}

/// The addresses of `order` that have no card in `cached`, each once, in
/// order of first appearance.
pub open spec fn created_cards(cached: Set<Seq<char>>, order: Seq<Seq<char>>) -> Seq<Seq<char>>
    decreases order.len(),
{
    if order.len() == 0 {
        Seq::empty()
    } else {
        let prev = created_cards(cached, order.drop_last());
        let a = order.last();
        if cached.contains(a) || prev.contains(a) {
            prev
        } else {
            prev.push(a)
        }
    }
}

/// The address to select after a snapshot: the current selection when the
/// order is unchanged and it is still shown, else the snapshot's
/// selection; failing both, the first card.
pub open spec fn chosen_selection(
    order_changed: bool,
    new_order: Seq<Seq<char>>,
    current: Option<Seq<char>>,
    proposed: Option<Seq<char>>,
) -> Option<Seq<char>> {
    let base = if !order_changed {
        match current {
            Some(c) => if new_order.contains(c) {
                Some(c)
            } else {
                proposed
            },
            None => proposed,
        }
    } else {
        proposed
    };
    match base {
        Some(x) => Some(x),
        None => if new_order.len() > 0 {
            Some(new_order[0])
        } else {
            None
        },
    }
}

/// Whether both vectors hold the same strings in the same order.
fn same_strings(a: &Vec<String>, b: &Vec<String>) -> (same: bool)
    ensures
        same == (strings_view(a@) == strings_view(b@)),
{
    if a.len() != b.len() {
        assert(strings_view(a@).len() != strings_view(b@).len());
        return false;
    }
    let mut k: usize = 0;
    while k < a.len()
        invariant
            k <= a@.len(),
            a@.len() == b@.len(),
            forall|j: int| 0 <= j < k ==> a@[j]@ == b@[j]@,
        decreases a@.len() - k,
    {
        if a[k] != b[k] {
            assert(strings_view(a@)[k as int] != strings_view(b@)[k as int]);
            return false;
        }
        k = k + 1;
    }
    assert(strings_view(a@) =~= strings_view(b@));
    true
}

/// Whether `v` holds `a`.
fn holds(v: &Vec<String>, a: &String) -> (found: bool)
    ensures
        found == strings_view(v@).contains(a@),
{
    match position_of(v, a) {
        Some(k) => {
            assert(strings_view(v@)[k as int] == a@);
            true
        },
        None => false,
    }
}

/// Plans how to show `snapshot` over the cards on screen: `rendered_order`
/// is the card order shown, `cached` the addresses that have a card, and
/// `current_selection` the selected address.
pub fn plan_snapshot(
    rendered_order: &Vec<String>,
    cached: &Vec<String>,
    current_selection: &Option<String>,
    snapshot: &UiSnapshot,
) -> (plan: SnapshotPlan)
    ensures
        strings_view(plan.new_order@) == addresses_of(snapshot@.items),
        plan.order_changed == (strings_view(rendered_order@) != addresses_of(snapshot@.items)),
        strings_view(plan.stale@) == strings_view(cached@).filter(
            |a: Seq<char>| !addresses_of(snapshot@.items).contains(a),
        ),
        strings_view(plan.created@) == created_cards(
            strings_view(cached@).to_set(),
            addresses_of(snapshot@.items),
        ),
        plan.relayout == (if plan.order_changed {
            Relayout::Rebuild
        } else if rendered_order@.len() == 0 {
            Relayout::AppendAll
        } else {
            Relayout::Keep
        }),
        opt_chars(plan.selection) == chosen_selection(
            plan.order_changed,
            addresses_of(snapshot@.items),
            opt_chars(*current_selection),
            snapshot@.selected_address,
        ),
        opt_index(plan.selected_index) == (match opt_chars(plan.selection) {
            Some(s) => if addresses_of(snapshot@.items).contains(s) {
                Some(first_position(addresses_of(snapshot@.items), s))
            } else {
                None::<int>
            },
            None => None::<int>,
        }),
        plan.grid_visible == (snapshot.items@.len() > 0),
{
    let ghost target = addresses_of(snapshot@.items);
    let mut new_order: Vec<String> = Vec::new();
    let mut i: usize = 0;
    while i < snapshot.items.len()
        invariant
            i <= snapshot.items@.len(),
            target == addresses_of(snapshot@.items),
            strings_view(new_order@) == target.take(i as int),
            new_order@.len() == i,
        decreases snapshot.items@.len() - i,
    {
        let ghost before = new_order@;
        new_order.push(snapshot.items[i].address.clone());
        assert forall|q: int| 0 <= q < i implies #[trigger] strings_view(new_order@)[q] == target.take(i as int + 1)[q] by {
            assert(new_order@[q] == before[q]);
            assert(strings_view(before)[q] == target.take(i as int)[q]);
        }
        assert(target[i as int] == snapshot.items@[i as int].address@);
        assert(strings_view(new_order@) =~= target.take(i as int + 1));
        i = i + 1;
    }
    assert(target.take(target.len() as int) =~= target);
    let same = same_strings(rendered_order, &new_order);
    let order_changed = !same;
    let ghost cached_v = strings_view(cached@);
    let ghost gone = |a: Seq<char>| !target.contains(a);
    let mut stale: Vec<String> = Vec::new();
    let mut j: usize = 0;
    while j < cached.len()
        invariant
            j <= cached@.len(),
            cached_v == strings_view(cached@),
            gone == (|a: Seq<char>| !target.contains(a)),
            strings_view(new_order@) == target,
            strings_view(stale@) == cached_v.take(j as int).filter(gone),
        decreases cached@.len() - j,
    {
        assert(cached_v.take(j as int + 1) =~= cached_v.take(j as int).push(cached_v[j as int]));
        proof {
            cached_v.take(j as int).lemma_filter_push(cached_v[j as int], gone);
        }
        if !holds(&new_order, &cached[j]) {
            stale.push(cached[j].clone());
            assert(strings_view(stale@) =~= cached_v.take(j as int).filter(gone).push(
                cached_v[j as int],
            ));
        }
        j = j + 1;
    }
    assert(cached_v.take(cached_v.len() as int) =~= cached_v);
    let mut created: Vec<String> = Vec::new();
    let mut m: usize = 0;
    while m < new_order.len()
        invariant
            m <= new_order@.len(),
            cached_v == strings_view(cached@),
            strings_view(new_order@) == target,
            strings_view(created@) == created_cards(cached_v.to_set(), target.take(m as int)),
        decreases new_order@.len() - m,
    {
        assert(target.take(m as int + 1).drop_last() =~= target.take(m as int));
        let a = &new_order[m];
        assert(a@ == target[m as int]);
        if !holds(cached, a) && !holds(&created, a) {
            created.push(a.clone());
            assert(strings_view(created@) =~= created_cards(cached_v.to_set(), target.take(m as int)).push(a@));
        }
        m = m + 1;
    }
    assert(target.take(target.len() as int) =~= target);
    let relayout = if order_changed {
        Relayout::Rebuild
    } else if rendered_order.len() == 0 {
        Relayout::AppendAll
    } else {
        Relayout::Keep
    };
    let base = if !order_changed {
        match current_selection {
            Some(c) => if holds(&new_order, c) {
                Some(c.clone())
            } else {
                copy_opt_string(&snapshot.selected_address)
            },
            None => copy_opt_string(&snapshot.selected_address),
        }
    } else {
        copy_opt_string(&snapshot.selected_address)
    };
    let selection = match base {
        Some(x) => Some(x),
        None => if new_order.len() > 0 {
            Some(new_order[0].clone())
        } else {
            None
        },
    };
    let selected_index = match &selection {
        Some(s) => if holds(&new_order, s) {
            let ix = current_index(&new_order, &selection);
            Some(ix)
        } else {
            None
        },
        None => None,
    };
    SnapshotPlan {
        new_order,
        order_changed,
        stale,
        created,
        relayout,
        selection,
        selected_index,
        grid_visible: snapshot.items.len() > 0,
    }
}
} // verus!
