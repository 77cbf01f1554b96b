use vstd::prelude::*;
use crate::notification::NotificationModel;
use crate::list::{
    LiveModel, ListModel, list_wf, without_id, has_id, has_key, model_push, model_dismiss,
    model_clear, click_handler, model_click, window, needs_timer, timers_to_arm, model_render,
    lemma_filter_wf, WINDOW,
};

verus! {

broadcast use vstd::seq_lib::group_seq_properties;

/// Filtering by a predicate that every item meets changes nothing.
proof fn lemma_filter_all(s: Seq<LiveModel>, p: spec_fn(LiveModel) -> bool)
    requires
        forall|i: int| 0 <= i < s.len() ==> p(s[i]),
    ensures
        s.filter(p) == s,
    decreases s.len(),
{
    reveal(Seq::filter);
    if s.len() > 0 {
        lemma_filter_all(s.drop_last(), p);
        assert(s.drop_last().push(s.last()) =~= s);
    }
}

/// Filtering by a predicate that no item meets leaves nothing.
proof fn lemma_filter_none(s: Seq<LiveModel>, p: spec_fn(LiveModel) -> bool)
    requires
        forall|i: int| 0 <= i < s.len() ==> !p(s[i]),
    ensures
        s.filter(p) == Seq::<LiveModel>::empty(),
    decreases s.len(),
{
    reveal(Seq::filter);
    if s.len() > 0 {
        lemma_filter_none(s.drop_last(), p);
    }
    assert(s.filter(p) =~= Seq::<LiveModel>::empty());
}

/// A push keeps the list well formed: the new handle is fresh and the new
/// id is the only one of its kind.
pub proof fn lemma_push_wf(m: ListModel, n: NotificationModel)
    requires
        list_wf(m),
        m.next_key < u64::MAX,
    ensures
        list_wf(model_push(m, n)),
{
    lemma_filter_wf(m, |e: LiveModel| e.note.id != n.id);
    let f = without_id(m.items, n.id);
    assert forall|i: int| 0 <= i < f.len() implies f[i].key < m.next_key && f[i].note.id != n.id by {
        let k = choose|k: int| 0 <= k < m.items.len() && m.items[k] == f[i];
    }
}

/// A dismiss signal keeps the list well formed.
pub proof fn lemma_dismiss_wf(m: ListModel, key: u64)
    requires
        list_wf(m),
    ensures
        list_wf(model_dismiss(m, key)),
{
    lemma_filter_wf(m, |e: LiveModel| e.key != key);
}

/// A signal for a handle that is not live changes nothing.
pub proof fn law_stale_signal_is_noop(m: ListModel, key: u64)
    requires
        !has_key(m.items, key),
    ensures
        model_dismiss(m, key) == m,
        click_handler(m.items, key) is None,
        model_click(m, key) == m,
{
    lemma_filter_all(m.items, |e: LiveModel| e.key != key);
}

/// Dismissing a live item removes exactly that item and leaves the others,
/// in their order.
pub proof fn law_dismiss_exactly(m: ListModel, i: int)
    requires
        list_wf(m),
        0 <= i < m.items.len(),
    ensures
        model_dismiss(m, m.items[i].key).items == m.items.remove(i),
{
    let s = m.items;
    let key = s[i].key;
    let p = |e: LiveModel| e.key != key;
    let a = s.subrange(0, i);
    let b = s.subrange(i, i + 1);
    let c = s.subrange(i + 1, s.len() as int);
    assert(s =~= a + b + c);
    Seq::filter_distributes_over_add(a + b, c, p);
    Seq::filter_distributes_over_add(a, b, p);
    lemma_filter_all(a, p);
    lemma_filter_all(c, p);
    lemma_filter_none(b, p);
    assert(s.remove(i) =~= a + c);
    assert(a + Seq::<LiveModel>::empty() + c =~= a + c);
}

/// Pushing a notification whose id is not live keeps every item and
/// appends the new one.
pub proof fn law_push_fresh_id_keeps_all(m: ListModel, n: NotificationModel)
    requires
        !has_id(m.items, n.id),
    ensures
        model_push(m, n).items == m.items.push(LiveModel { key: m.next_key, note: n, armed: false }),
{
    lemma_filter_all(m.items, |e: LiveModel| e.note.id != n.id);
}

/// Pushing twice with one id leaves exactly one live item with that id: the
/// second, as the most recent. The first one's handle is gone, so its
/// timer firing later has no effect.
pub proof fn law_push_same_id_replaces(m: ListModel, a: NotificationModel, b: NotificationModel)
    requires
        list_wf(m),
        a.id == b.id,
        m.next_key + 1 < u64::MAX,
    ensures
        ({
            let m2 = model_push(model_push(m, a), b);
            &&& m2.items.len() > 0
            &&& m2.items.last() == (LiveModel { key: (m.next_key + 1) as u64, note: b, armed: false })
            &&& forall|i: int| 0 <= i < m2.items.len() - 1 ==> m2.items[i].note.id != b.id
            &&& !has_key(m2.items, m.next_key)
            &&& model_dismiss(m2, m.next_key) == m2
        }),
{
    let m1 = model_push(m, a);
    lemma_push_wf(m, a);
    lemma_push_wf(m1, b);
    let m2 = model_push(m1, b);
    lemma_filter_wf(m1, |e: LiveModel| e.note.id != b.id);
    let f = without_id(m1.items, b.id);
    assert forall|i: int| 0 <= i < m2.items.len() implies m2.items[i].key != m.next_key by {
        if i < f.len() {
            assert(m1.items.contains(f[i]));
            let k = choose|k: int| 0 <= k < m1.items.len() && m1.items[k] == f[i];
            let last = m1.items.len() - 1;
            assert(m1.items[last].key == m.next_key);
            if k != last {
                assert(m1.items[k].key != m1.items[last].key);
            }
        }
    }
    law_stale_signal_is_noop(m2, m.next_key);
}

/// The shown window is the most recent `WINDOW` items at most, in their
/// order: nothing is dropped from the list itself.
pub proof fn law_window(s: Seq<LiveModel>)
    ensures
        window(s).len() == if s.len() > WINDOW { WINDOW as int } else { s.len() as int },
        forall|k: int|
            0 <= k < window(s).len() ==> #[trigger] window(s)[k] == s[s.len() - window(s).len() + k],
{
}

/// A render arms each timer once: right after a render, another render arms none.
pub proof fn law_render_arms_once(m: ListModel)
    ensures
        timers_to_arm(model_render(m).items).len() == 0,
{
    let w = window(model_render(m).items);
    lemma_filter_none(w, |e: LiveModel| needs_timer(e));
}

/// A pushed autohide notification is live right after the push; the next
/// render arms its timer; when that timer fires it is gone.
pub proof fn law_autohide(m: ListModel, n: NotificationModel)
    requires
        list_wf(m),
        m.next_key < u64::MAX,
        n.autohide,
    ensures
        ({
            let m1 = model_push(m, n);
            let m2 = model_render(m1);
            &&& has_key(m1.items, m.next_key)
            &&& timers_to_arm(m1.items).contains(m.next_key)
            &&& !has_id(model_dismiss(m2, m.next_key).items, n.id)
        }),
{
    let m1 = model_push(m, n);
    let m2 = model_render(m1);
    let s = m1.items;
    let last = s.len() - 1;
    assert(s[last].key == m.next_key);
    let w = window(s);
    let p = |e: LiveModel| needs_timer(e);
    assert(w =~= w.drop_last().push(s[last]));
    w.drop_last().lemma_filter_push(s[last], p);
    let t = timers_to_arm(s);
    assert(t[t.len() - 1] == m.next_key);
    lemma_push_wf(m, n);
    assert(list_wf(m2));
    lemma_filter_wf(m2, |e: LiveModel| e.key != m.next_key);
    let d = model_dismiss(m2, m.next_key).items;
    assert forall|i: int| 0 <= i < d.len() implies d[i].note.id != n.id by {
        assert(m2.items.contains(d[i]));
        let k = choose|k: int| 0 <= k < m2.items.len() && m2.items[k] == d[i];
        if k != last {
            assert(m2.items[k].note.id != m2.items[last].note.id);
        }
    }
}

/// A click on a clickable live item hands out its handler and removes it
/// and nothing else; a second click finds nothing, so the handler runs once.
pub proof fn law_click_once(m: ListModel, i: int, h: u64)
    requires
        list_wf(m),
        0 <= i < m.items.len(),
        m.items[i].note.on_click == Some(h),
    ensures
        click_handler(m.items, m.items[i].key) == Some(h),
        model_click(m, m.items[i].key).items == m.items.remove(i),
        click_handler(model_click(m, m.items[i].key).items, m.items[i].key) is None,
{
    let s = m.items;
    let key = s[i].key;
    let c = choose|j: int| 0 <= j < s.len() && s[j].key == key && s[j].note.on_click is Some;
    assert(c == i);
    law_dismiss_exactly(m, i);
    let r = s.remove(i);
    assert forall|j: int| 0 <= j < r.len() implies r[j].key != key by {
        if j < i {
            assert(r[j] == s[j]);
        } else {
            assert(r[j] == s[j + 1]);
        }
    }
    law_stale_signal_is_noop(model_click(m, key), key);
}

/// `clear` leaves nothing live, and a timer of an item from before the
/// clear, firing later, changes nothing, also after new pushes.
pub proof fn law_clear_silences_timers(m: ListModel, key: u64, n: NotificationModel)
    requires
        list_wf(m),
        key < m.next_key,
        m.next_key < u64::MAX,
    ensures
        model_clear(m).items.len() == 0,
        model_dismiss(model_clear(m), key) == model_clear(m),
        model_dismiss(model_push(model_clear(m), n), key) == model_push(model_clear(m), n),
{
    law_stale_signal_is_noop(model_clear(m), key);
    let m2 = model_push(model_clear(m), n);
    lemma_filter_none(Seq::<LiveModel>::empty(), |e: LiveModel| e.note.id != n.id);
    assert(m2.items.len() == 1);
    law_stale_signal_is_noop(m2, key);
}

} // verus!
