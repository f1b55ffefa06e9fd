//! Properties of the library that span several operations.
use vstd::prelude::*;
use crate::backend::{
    default_selection, emit_outcome, is_new_active, job_begun, mru_consistent, mru_promote,
    registered, resolved_thumbnail, snapshot_content, status_consistent, loading_view, thumbnail_result_applied, transition_job,
    transitioned, BackendView, job_in_flight,
};
use crate::model::{SnapshotView, ThumbnailState, UiStatus, WindowView};
use crate::navigation::moved_index;
use crate::navigation::NavKey;
use crate::ordering::{
    insert_pos, key_before, lemma_key_order, sort_key, sorted_by_recency, stable_sort,
};
use crate::paths::{ends_with_png, stale_thumbnail, trim_png};
use crate::event_loop::{control_step, LoopActionView, LoopEvent};
use crate::config::REFRESH_DEBOUNCE_MS;

verus! {

#[verifier::rlimit(60)]
#[verifier::spinoff_prover]
proof fn lemma_remove_is_filter(s: Seq<Seq<char>>, a: Seq<char>)
    requires
        s.no_duplicates(),
    ensures
        (if s.contains(a) {
            s.remove(s.index_of(a))
        } else {
            s
        }) == s.filter(|x: Seq<char>| x != a),
    decreases s.len(),
{
    let pred = |x: Seq<char>| x != a;
    if s.len() == 0 {
        assert(s.filter(pred) =~= s);
    } else {
        let init = s.drop_last();
        assert(init.no_duplicates());
        lemma_remove_is_filter(init, a);
        assert(s =~= init.push(s.last()));
        init.lemma_filter_push(s.last(), pred);
        if s.last() == a {
            assert(!init.contains(a)) by {
                if init.contains(a) {
                    let k = choose|k: int| 0 <= k < init.len() && init[k] == a;
                    assert(s[k] == a && s[s.len() - 1] == a);
                }
            }
            assert(s.index_of(a) == s.len() - 1) by {
                let w = s.index_of(a);
                assert(s.contains(a) && s[s.len() - 1] == a);
                assert(s[w] == a);
            }
            assert(s.remove(s.len() - 1) =~= init);
        } else if init.contains(a) {
            let w = s.index_of(a);
            assert(s.contains(a));
            assert(s[w] == a);
            assert(w < s.len() - 1);
            assert(init.index_of(a) == w) by {
                let v = init.index_of(a);
                assert(init[v] == a);
                assert(s[v] == a);
            }
            assert(s.remove(w) =~= init.remove(w).push(s.last()));
        } else {
            assert(!s.contains(a)) by {
                if s.contains(a) {
                    let k = choose|k: int| 0 <= k < s.len() && s[k] == a;
                    if k < s.len() - 1 {
                        assert(init[k] == a);
                    }
                }
            }
        }
    }
}

/// When the compositor reports a new active window `a`, it moves to the front
/// of the most-recently-used order with a focus number above every other,
/// the other windows keep their order, and the window is recorded as active.
pub proof fn law_activation_moves_window_to_front(pre: BackendView, a: Seq<char>, m: Seq<char>)
    requires
        mru_consistent(pre),
        pre.focus_seq < u64::MAX,
        a.len() > 0,
        is_new_active(pre, a),
    ensures
        ({
            let post = transitioned(pre, a, m);
            &&& post.mru_order == seq![a] + pre.mru_order.filter(|x: Seq<char>| x != a)
            &&& post.focus_seqs.contains_key(a)
            &&& forall|x: Seq<char>|
                #[trigger] post.focus_seqs.contains_key(x) && x != a ==> post.focus_seqs[x]
                    < post.focus_seqs[a]
            &&& post.last_active == Some((a, m))
            &&& mru_consistent(post)
        }),
{
    lemma_remove_is_filter(pre.mru_order, a);
    let post = transitioned(pre, a, m);
    assert(post.mru_order == mru_promote(pre.mru_order, a));
    crate::backend::lemma_registered_consistent(pre, a);
    assert forall|x: Seq<char>|
        #[trigger] post.focus_seqs.contains_key(x) && x != a implies post.focus_seqs[x]
        < post.focus_seqs[a] by {
        assert(pre.focus_seqs.contains_key(x));
    }
}

/// Reporting the same active window again changes nothing and asks for no
/// thumbnail.
pub proof fn law_repeated_activation_is_idempotent(pre: BackendView, a: Seq<char>, m: Seq<char>)
    requires
        a.len() > 0,
    ensures
        transitioned(transitioned(pre, a, m), a, m) == transitioned(pre, a, m),
        transition_job(transitioned(pre, a, m), a) is None,
{
    let p1 = transitioned(pre, a, m);
    assert(!is_new_active(p1, a));
    assert(registered(p1, a) == p1);
}

/// A thumbnail job never targets the window that just became active: it is
/// the previously active window, on the monitor it was on.
pub proof fn law_thumbnail_job_targets_previous_window(pre: BackendView, a: Seq<char>)
    ensures
        transition_job(pre, a) matches Some(j) ==> j.0 != a && pre.last_active == Some(j),
{
}

/// Emitting the same items with the same status twice sends nothing the
/// second time, and a sent snapshot carries the next revision.
pub proof fn law_unchanged_snapshot_is_not_resent(pre: BackendView, items: Seq<WindowView>, status: UiStatus)
    requires
        pre.revision < u64::MAX,
    ensures
        ({
            let (p1, s1) = emit_outcome(pre, items, status);
            let (p2, s2) = emit_outcome(p1, items, status);
            &&& s2 is None
            &&& p2 == p1
            &&& s1 matches Some(s) ==> s.revision == pre.revision + 1 && p1.revision == s.revision
        }),
{
}

/// After an emission, whether or not a snapshot was sent, the recorded
/// status is the status just asked for and the last emitted content shows
/// it, so an unchanged refresh leaves the recorded status in step with
/// what it computed.
pub proof fn law_emission_records_status(pre: BackendView, items: Seq<WindowView>, status: UiStatus)
    requires
        status_consistent(pre),
    ensures
        ({
            let (post, _snap) = emit_outcome(pre, items, status);
            &&& post.last_emitted == Some(snapshot_content(items, status))
            &&& post.last_status == status
            &&& status_consistent(post)
        }),
{
}

/// The state after the emissions `requests` (items and status, in order)
/// from `pre`, and the snapshots sent, in send order.
pub open spec fn emit_all(pre: BackendView, requests: Seq<(Seq<WindowView>, UiStatus)>) -> (BackendView, Seq<SnapshotView>)
    decreases requests.len(),
{
    if requests.len() == 0 {
        (pre, Seq::empty())
    } else {
        let (mid, sent) = emit_all(pre, requests.drop_last());
        let (post, snap) = emit_outcome(mid, requests.last().0, requests.last().1);
        match snap {
            Some(s) => (post, sent.push(s)),
            None => (post, sent),
        }
    }
}

/// Sent snapshots carry consecutive revisions: starting from a state with
/// the revision of the loading snapshot (0, that of a fresh state), the
/// snapshots sent afterwards carry revisions 1, 2, 3, ... in send order,
/// and the state's revision is that of the last one sent.
pub proof fn law_sent_revisions_count_up(pre: BackendView, requests: Seq<(Seq<WindowView>, UiStatus)>)
    requires
        pre.revision == loading_view().revision,
        requests.len() <= u64::MAX,
    ensures
        ({
            let (post, sent) = emit_all(pre, requests);
            &&& forall|i: int| 0 <= i < sent.len() ==> #[trigger] sent[i].revision == i + 1
            &&& post.revision == sent.len()
            &&& sent.len() <= requests.len()
        }),
{
    lemma_emit_all_revisions(pre, requests);
}

proof fn lemma_emit_all_revisions(pre: BackendView, requests: Seq<(Seq<WindowView>, UiStatus)>)
    requires
        pre.revision + requests.len() <= u64::MAX,
    ensures
        ({
            let (post, sent) = emit_all(pre, requests);
            &&& forall|i: int| 0 <= i < sent.len() ==> #[trigger] sent[i].revision == pre.revision + i + 1
            &&& post.revision == pre.revision + sent.len()
            &&& sent.len() <= requests.len()
        }),
    decreases requests.len(),
{
    if requests.len() > 0 {
        lemma_emit_all_revisions(pre, requests.drop_last());
    }
}

proof fn lemma_insert_pos_bounds(r: Seq<WindowView>, x: WindowView)
    ensures
        0 <= insert_pos(r, x) <= r.len(),
        forall|q: int| 0 <= q < insert_pos(r, x) ==> key_before(#[trigger] sort_key(r[q]), sort_key(x)),
        insert_pos(r, x) < r.len() ==> !key_before(sort_key(r[insert_pos(r, x)]), sort_key(x)),
    decreases r.len(),
{
    if r.len() > 0 && key_before(sort_key(r[0]), sort_key(x)) {
        let t = r.drop_first();
        lemma_insert_pos_bounds(t, x);
        assert forall|q: int| 0 <= q < insert_pos(r, x) implies key_before(
            #[trigger] sort_key(r[q]),
            sort_key(x),
        ) by {
            if q > 0 {
                assert(r[q] == t[q - 1]);
            }
        }
        if insert_pos(r, x) < r.len() {
            assert(r[insert_pos(r, x)] == t[insert_pos(t, x)]);
        }
    }
}

/// The stable sort holds the same number of elements and is sorted.
pub proof fn lemma_stable_sort_sorted(s: Seq<WindowView>)
    ensures
        stable_sort(s).len() == s.len(),
        sorted_by_recency(stable_sort(s)),
    decreases s.len(),
{
    if s.len() > 0 {
        let r = stable_sort(s.drop_last());
        lemma_stable_sort_sorted(s.drop_last());
        let x = s.last();
        let pos = insert_pos(r, x);
        lemma_insert_pos_bounds(r, x);
        let r2 = r.insert(pos, x);
        let kx = sort_key(x);
        assert forall|q: int| pos <= q < r.len() implies key_before(kx, #[trigger] sort_key(r[q])) by {
            lemma_key_order(sort_key(r[pos]), sort_key(r[q]), kx);
            lemma_key_order(kx, sort_key(r[q]), kx);
            if q > pos {
                assert(key_before(sort_key(r[pos]), sort_key(r[q])));
            }
        }
        assert forall|i: int, j: int| 0 <= i < j < r2.len() implies key_before(
            sort_key(#[trigger] r2[i]),
            sort_key(#[trigger] r2[j]),
        ) by {
            if i < pos && j < pos {
                assert(r2[i] == r[i] && r2[j] == r[j]);
            } else if i < pos && j == pos {
                assert(r2[i] == r[i]);
            } else if i < pos {
                assert(r2[i] == r[i] && r2[j] == r[j - 1]);
            } else if i == pos {
                assert(r2[j] == r[j - 1]);
            } else {
                assert(r2[i] == r[i - 1] && r2[j] == r[j - 1]);
            }
        }
    }
}

proof fn lemma_sorted_is_fixed(r: Seq<WindowView>)
    requires
        sorted_by_recency(r),
    ensures
        stable_sort(r) == r,
    decreases r.len(),
{
    if r.len() > 0 {
        let init = r.drop_last();
        assert(sorted_by_recency(init)) by {
            assert forall|i: int, j: int| 0 <= i < j < init.len() implies key_before(
                sort_key(#[trigger] init[i]),
                sort_key(#[trigger] init[j]),
            ) by {
                assert(init[i] == r[i] && init[j] == r[j]);
            }
        }
        lemma_sorted_is_fixed(init);
        let x = r.last();
        assert forall|q: int| 0 <= q < init.len() implies key_before(#[trigger] sort_key(init[q]), sort_key(x)) by {
            assert(init[q] == r[q]);
            assert(x == r[r.len() - 1]);
        }
        lemma_insert_pos_bounds(init, x);
        if insert_pos(init, x) < init.len() {
            assert(key_before(sort_key(init[insert_pos(init, x)]), sort_key(x)));
        }
        assert(init.insert(init.len() as int, x) =~= r);
    }
}

/// Sorting an already sorted list changes nothing: the list the refresh
/// sorts before emitting is emitted in the same order.
pub proof fn law_sorting_is_idempotent(s: Seq<WindowView>)
    ensures
        stable_sort(stable_sort(s)) == stable_sort(s),
        snapshot_content(stable_sort(s), UiStatus::Ready) == snapshot_content(s, UiStatus::Ready),
{
    lemma_stable_sort_sorted(s);
    lemma_sorted_is_fixed(stable_sort(s));
}

/// With two or more windows the default selection is the previously focused
/// one: the second entry, whose focus number is at most the first's and at
/// least every later one's.
pub proof fn law_default_selection_is_previous_window(items: Seq<WindowView>, status: UiStatus)
    requires
        items.len() >= 2,
    ensures
        ({
            let c = snapshot_content(items, status);
            &&& c.selected_address == Some(c.items[1].address)
            &&& c.items[0].last_focus_seq >= c.items[1].last_focus_seq
            &&& forall|k: int|
                1 <= k < c.items.len() ==> c.items[1].last_focus_seq >= #[trigger] c.items[k].last_focus_seq
        }),
{
    lemma_stable_sort_sorted(items);
    let r = stable_sort(items);
    assert(key_before(sort_key(r[0]), sort_key(r[1])));
    assert forall|k: int| 1 <= k < r.len() implies r[1].last_focus_seq >= #[trigger] r[k].last_focus_seq by {
        if k > 1 {
            assert(key_before(sort_key(r[1]), sort_key(r[k])));
        }
    }
}

/// A thumbnail job that was accepted is in flight, so the same job is not
/// accepted again until the worker reports.
pub proof fn law_thumbnail_job_accepted_once(pre: BackendView, a: Seq<char>, m: Seq<char>)
    ensures
        job_begun(pre, a, m).in_flight.contains((a, m)),
        resolved_thumbnail(job_begun(pre, a, m), a, true) == ThumbnailState::Pending,
        resolved_thumbnail(job_begun(pre, a, m), a, false) == ThumbnailState::Pending,
{
    assert(job_begun(pre, a, m).in_flight.contains((a, m)));
    assert(job_in_flight(job_begun(pre, a, m), a));
}

/// Once the worker reports on the only job for a window, the window's
/// preview is ready after a success and failed after a failure, whether or
/// not a preview file is found.
pub proof fn law_worker_report_decides_preview(
    pre: BackendView,
    a: Seq<char>,
    m: Seq<char>,
    success: bool,
    file_exists: bool,
)
    requires
        forall|n: Seq<char>| n != m ==> !pre.in_flight.contains((a, n)),
    ensures
        resolved_thumbnail(thumbnail_result_applied(pre, a, m, success), a, file_exists) == (if success {
            ThumbnailState::Ready
        } else {
            ThumbnailState::Failed
        }),
{
    let post = thumbnail_result_applied(pre, a, m, success);
    assert(!job_in_flight(post, a)) by {
        if job_in_flight(post, a) {
            let n = choose|n: Seq<char>| post.in_flight.contains((a, n));
            assert(pre.in_flight.contains((a, n)));
        }
    }
}

/// Navigation keeps the selection on a card.
pub proof fn law_navigation_stays_on_a_card(n: int, columns: int, index: int, key: NavKey)
    requires
        n > 0,
        columns >= 1,
        0 <= index < n,
    ensures
        0 <= moved_index(n, columns, index, key) < n,
{
}

/// The card reached after pressing Tab `k` times.
pub open spec fn after_tabs(n: int, index: int, k: nat) -> int
    decreases k,
{
    if k == 0 {
        index
    } else {
        moved_index(n, 1, after_tabs(n, index, (k - 1) as nat), NavKey::Tab)
    }
}

proof fn lemma_after_tabs(n: int, index: int, k: nat)
    requires
        n > 0,
        0 <= index < n,
    ensures
        after_tabs(n, index, k) == (index + k) % n,
    decreases k,
{
    if k > 0 {
        lemma_after_tabs(n, index, (k - 1) as nat);
        let prev = (index + k - 1) % n;
        assert(after_tabs(n, index, (k - 1) as nat) == prev);
        assert(after_tabs(n, index, k) == moved_index(n, 1, prev, NavKey::Tab));
        assert(moved_index(n, 1, prev, NavKey::Tab) == (prev + 1) % n);
        assert(((prev + 1) % n) == (index + k) % n) by {
            vstd::arithmetic::div_mod::lemma_add_mod_noop(index + k - 1, 1, n);
            vstd::arithmetic::div_mod::lemma_add_mod_noop_right(prev, 1, n);
        }
    } else {
        vstd::arithmetic::div_mod::lemma_small_mod(index as nat, n as nat);
    }
}

/// Tab moves through the cards in a cycle: after as many presses as there
/// are cards the selection is back where it started.
pub proof fn law_tab_cycles_through_all_cards(n: int, index: int)
    requires
        n > 0,
        0 <= index < n,
    ensures
        after_tabs(n, index, n as nat) == index,
        forall|k: nat| k < n ==> (after_tabs(n, index, k) == index <==> k == 0),
{
    lemma_after_tabs(n, index, n as nat);
    vstd::arithmetic::div_mod::lemma_mod_add_multiples_vanish(index, n);
    vstd::arithmetic::div_mod::lemma_small_mod(index as nat, n as nat);
    assert forall|k: nat| k < n implies (after_tabs(n, index, k) == index <==> k == 0) by {
        lemma_after_tabs(n, index, k);
        if index + k < n {
            vstd::arithmetic::div_mod::lemma_small_mod((index + k) as nat, n as nat);
        } else {
            vstd::arithmetic::div_mod::lemma_mod_add_multiples_vanish(index + k - n, n);
            vstd::arithmetic::div_mod::lemma_small_mod((index + k - n) as nat, n as nat);
        }
    }
}

/// The preview file of window `a` (named after its address) counts as stale
/// exactly when `a` is no longer listed, provided the address does not itself
/// end with ".png".
pub proof fn law_preview_file_stale_iff_window_gone(a: Seq<char>, active: Set<Seq<char>>)
    requires
        !ends_with_png(a),
    ensures
        stale_thumbnail(a + ".png"@, active) == !active.contains(a),
{
    reveal_strlit(".png");
    let name = a + ".png"@;
    assert(name.subrange(name.len() - 4, name.len() as int) =~= ".png"@);
    assert(name.subrange(0, name.len() - 4) =~= a);
    assert(trim_png(name) == trim_png(a));
}

/// The loop's control run over `events` (none of them a thumbnail report),
/// from the debouncing flag `d`: the final flag and the actions, in order.
pub open spec fn run_control(d: bool, events: Seq<LoopEvent>) -> (bool, Seq<LoopActionView>)
    decreases events.len(),
{
    if events.len() == 0 {
        (d, Seq::empty())
    } else {
        let (mid, acts) = run_control(d, events.drop_last());
        let (post, act) = control_step(mid, events.last());
        (post, acts.push(act))
    }
}

/// `n` change signals in a row.
pub open spec fn signals(n: nat) -> Seq<LoopEvent> {
    Seq::new(n, |i: int| LoopEvent::Signal)
}

/// One wait for the quiet period per signal, `n` of them.
pub open spec fn waits(n: nat) -> Seq<LoopActionView> {
    Seq::new(n, |i: int| LoopActionView::WaitForQuiet(REFRESH_DEBOUNCE_MS))
}

proof fn lemma_signals_wait(d: bool, n: nat)
    requires
        n >= 1,
    ensures
        run_control(d, signals(n)).0,
        run_control(d, signals(n)).1 =~= waits(n),
    decreases n,
{
    assert(signals(n).len() == n);
    assert(signals(n).drop_last() =~= signals((n - 1) as nat));
    assert(signals(n).last() == LoopEvent::Signal);
    if n == 1 {
        assert(signals(0) =~= Seq::<LoopEvent>::empty());
        assert(run_control(d, signals(0)).1 =~= Seq::<LoopActionView>::empty());
    } else {
        lemma_signals_wait(d, (n - 1) as nat);
    }
    assert(waits(n) =~= waits((n - 1) as nat).push(LoopActionView::WaitForQuiet(REFRESH_DEBOUNCE_MS)));
}

/// Debouncing: a burst of `n` change signals followed by a quiet period
/// yields one wait per signal and then exactly one refresh, and leaves the
/// loop no longer debouncing.
pub proof fn law_signal_burst_refreshes_once(d: bool, n: nat)
    requires
        n >= 1,
    ensures
        !run_control(d, signals(n).push(LoopEvent::QuietElapsed)).0,
        run_control(d, signals(n).push(LoopEvent::QuietElapsed)).1 =~= waits(n).push(LoopActionView::Refresh),
{
    lemma_signals_wait(d, n);
    let events = signals(n).push(LoopEvent::QuietElapsed);
    assert(events.drop_last() =~= signals(n));
    assert(events.last() == LoopEvent::QuietElapsed);
}

} // verus!
