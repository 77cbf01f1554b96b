use vstd::prelude::*;
use crate::notification::{Notification, NotificationModel};
use crate::laws::{lemma_push_wf, lemma_dismiss_wf};
use crate::render::{ItemRender, render_item, describes};

verus! {

broadcast use vstd::seq_lib::group_seq_properties;

/// Delay, in milliseconds, after which an autohide notification dismisses itself.
pub const AUTOHIDE_DELAY_MS: u64 = 5000;

/// Number of most recent notifications that are shown.
pub const WINDOW: usize = 10;

/// Model of one live item: its handle, its notification, and whether its
/// autohide timer has been armed.
pub struct LiveModel {
    pub key: u64,
    pub note: NotificationModel,
    pub armed: bool,
}

/// Model of a list: the live items, oldest first, and the handle that the
/// next pushed item will get.
pub struct ListModel {
    pub items: Seq<LiveModel>,
    pub next_key: u64,
}

/// A live item: a notification under a handle that is never reused.
pub struct LiveItem {
    pub key: u64,
    pub notification: Notification,
    pub armed: bool,
}

impl View for LiveItem {
    type V = LiveModel;

    open spec fn view(&self) -> LiveModel {
        LiveModel { key: self.key, note: self.notification@, armed: self.armed }
    }
}

pub open spec fn items_model(v: Seq<LiveItem>) -> Seq<LiveModel> {
    v.map_values(|e: LiveItem| e@)
}

/// Handles are distinct, ids are distinct, and every handle was given out.
pub open spec fn list_wf(m: ListModel) -> bool {
    &&& forall|i: int, j: int|
        0 <= i < m.items.len() && 0 <= j < m.items.len() && i != j
            ==> m.items[i].key != m.items[j].key
    &&& forall|i: int, j: int|
        0 <= i < m.items.len() && 0 <= j < m.items.len() && i != j
            ==> m.items[i].note.id != m.items[j].note.id
    &&& forall|i: int| 0 <= i < m.items.len() ==> m.items[i].key < m.next_key
}

pub open spec fn without_id(s: Seq<LiveModel>, id: Seq<char>) -> Seq<LiveModel> {
    s.filter(|e: LiveModel| e.note.id != id)
}

pub open spec fn without_key(s: Seq<LiveModel>, key: u64) -> Seq<LiveModel> {
    s.filter(|e: LiveModel| e.key != key)
}

pub open spec fn has_id(s: Seq<LiveModel>, id: Seq<char>) -> bool {
    exists|i: int| 0 <= i < s.len() && s[i].note.id == id
}

pub open spec fn has_key(s: Seq<LiveModel>, key: u64) -> bool {
    exists|i: int| 0 <= i < s.len() && s[i].key == key
}

/// `push`: the item with the same id, if any, leaves; the new one is
/// appended, unarmed, under a fresh handle.
pub open spec fn model_push(m: ListModel, n: NotificationModel) -> ListModel {
    ListModel {
        items: without_id(m.items, n.id).push(LiveModel { key: m.next_key, note: n, armed: false }),
        next_key: (m.next_key + 1) as u64,
    }
}

/// A dismiss signal from the item under `key`: that item leaves, if it is
/// still live.
pub open spec fn model_dismiss(m: ListModel, key: u64) -> ListModel {
    ListModel { items: without_key(m.items, key), next_key: m.next_key }
}

/// `clear`: every item leaves; handles already given out stay used.
pub open spec fn model_clear(m: ListModel) -> ListModel {
    ListModel { items: Seq::empty(), next_key: m.next_key }
}

/// The click handler of the live item under `key`, if it is clickable.
pub open spec fn click_handler(s: Seq<LiveModel>, key: u64) -> Option<u64> {
    if exists|i: int| 0 <= i < s.len() && s[i].key == key && s[i].note.on_click is Some {
        let i = choose|i: int| 0 <= i < s.len() && s[i].key == key && s[i].note.on_click is Some;
        s[i].note.on_click
    } else {
        None
    }
}

/// A click on the item under `key`: a clickable live item leaves and its
/// handler is handed out; otherwise nothing happens.
pub open spec fn model_click(m: ListModel, key: u64) -> ListModel {
    if click_handler(m.items, key) is Some {
        model_dismiss(m, key)
    } else {
        m
    }
}

/// First index of the shown window.
pub open spec fn window_start(len: int) -> int {
    if len > WINDOW { len - WINDOW } else { 0 }
}

/// The shown window: the most recent items, at most `WINDOW`, oldest first.
pub open spec fn window(s: Seq<LiveModel>) -> Seq<LiveModel> {
    s.subrange(window_start(s.len() as int), s.len() as int)
}

pub open spec fn needs_timer(e: LiveModel) -> bool {
    e.note.autohide && !e.armed
}

/// Handles whose autohide timer a render arms: the shown items that hide
/// themselves and were not armed before, in order.
pub open spec fn timers_to_arm(s: Seq<LiveModel>) -> Seq<u64> {
    window(s).filter(|e: LiveModel| needs_timer(e)).map_values(|e: LiveModel| e.key)
}

/// A render: every shown item is armed from then on.
pub open spec fn model_render(m: ListModel) -> ListModel {
    ListModel {
        items: Seq::new(
            m.items.len(),
            |i: int|
                LiveModel {
                    armed: m.items[i].armed || i >= window_start(m.items.len() as int),
                    ..m.items[i]
                },
        ),
        next_key: m.next_key,
    }
}

/// What a render of the list hands to the rendering engine and the scheduler.
pub struct ListRender {
    /// Descriptions of the shown items, oldest first.
    pub items: Vec<ItemRender>,
    /// Handles whose autohide timer is to be started now, each to call
    /// `dismiss` after `AUTOHIDE_DELAY_MS`.
    pub arm: Vec<u64>,
}

/// The live notifications of one surface, oldest first.
pub struct NotificationList {
    items: Vec<LiveItem>,
    next_key: u64,
}

impl View for NotificationList {
    type V = ListModel;

    closed spec fn view(&self) -> ListModel {
        ListModel { items: items_model(self.items@), next_key: self.next_key }
    }
}

/// Removes, in place and keeping order, the items whose handle is `key`
/// (`by_key`) or whose id is `id` (otherwise); returns whether any left.
fn remove_where(items: &mut Vec<LiveItem>, by_key: bool, key: u64, id: &String) -> (removed: bool)
    ensures
        items_model(final(items)@) == if by_key {
            without_key(items_model(old(items)@), key)
        } else {
            without_id(items_model(old(items)@), id@)
        },
        removed == if by_key {
            has_key(items_model(old(items)@), key)
        } else {
            has_id(items_model(old(items)@), id@)
        },
{
    let ghost s = items_model(items@);
    let ghost pred = if by_key {
        |e: LiveModel| e.key != key
    } else {
        |e: LiveModel| e.note.id != id@
    };
    let n: usize = items.len();
    let mut removed = false;
    let mut i: usize = 0;
    let mut j: usize = 0;
    while j < n
        invariant
            i <= j <= n == s.len() == old(items)@.len(),
            s == items_model(old(items)@),
            items_model(items@) == s.subrange(0, j as int).filter(pred) + s.subrange(j as int, s.len() as int),
            i == s.subrange(0, j as int).filter(pred).len(),
            items@.len() == i + (n - j),
            pred == (if by_key { |e: LiveModel| e.key != key } else { |e: LiveModel| e.note.id != id@ }),
            removed == exists|k: int| 0 <= k < j && !pred(s[k]),
        decreases s.len() - j,
    {
        proof {
            assert(s.subrange(0, j + 1) =~= s.subrange(0, j as int).push(s[j as int]));
            s.subrange(0, j as int).lemma_filter_push(s[j as int], pred);
        }
        let ghost prev = items_model(items@);
        let keep = if by_key {
            items[i].key != key
        } else {
            !(items[i].notification.id == *id)
        };
        assert(prev[i as int] == s[j as int]);
        assert(keep == pred(s[j as int]));
        if keep {
            i = i + 1;
        } else {
            items.remove(i);
            assert(items_model(items@) =~= prev.remove(i as int));
            removed = true;
        }
        j = j + 1;
        assert(items_model(items@) =~= s.subrange(0, j as int).filter(pred) + s.subrange(j as int, s.len() as int));
    }
    assert(s.subrange(0, s.len() as int) =~= s);
    if by_key {
        assert(forall|k: int| 0 <= k < n ==> pred(s[k]) == (s[k].key != key));
    } else {
        assert(forall|k: int| 0 <= k < n ==> pred(s[k]) == (s[k].note.id != id@));
    }
    removed
}

/// Filtering keeps handles and ids distinct, and keeps only items of the list.
pub proof fn lemma_filter_wf(m: ListModel, p: spec_fn(LiveModel) -> bool)
    requires
        list_wf(m),
    ensures
        list_wf(ListModel { items: m.items.filter(p), next_key: m.next_key }),
        forall|i: int|
            0 <= i < m.items.filter(p).len() ==> #[trigger] m.items.contains(m.items.filter(p)[i])
                && p(m.items.filter(p)[i]),
    decreases m.items.len(),
{
    reveal(Seq::filter);
    let s = m.items;
    if s.len() > 0 {
        let init = ListModel { items: s.drop_last(), next_key: m.next_key };
        lemma_filter_wf(init, p);
        let f = s.drop_last().filter(p);
        assert forall|i: int| 0 <= i < f.len() implies f[i].key != s.last().key && f[i].note.id
            != s.last().note.id by {
            assert(s.drop_last().contains(f[i]));
            let k = choose|k: int| 0 <= k < s.drop_last().len() && s.drop_last()[k] == f[i];
            assert(s[k] == f[i]);
        }
        assert forall|i: int| 0 <= i < f.len() implies s.contains(f[i]) by {
            assert(s.drop_last().contains(f[i]));
            let k = choose|k: int| 0 <= k < s.drop_last().len() && s.drop_last()[k] == f[i];
            assert(s[k] == f[i]);
        }
        assert(s.contains(s.last())) by {
            assert(s[s.len() - 1] == s.last());
        }
    }
}

impl NotificationList {
    /// An empty list.
    pub fn new() -> (r: NotificationList)
        ensures
            r@.items == Seq::<LiveModel>::empty(),
            r@.next_key == 0,
            list_wf(r@),
    {
        let r = NotificationList { items: Vec::new(), next_key: 0 };
        assert(items_model(r.items@) =~= Seq::<LiveModel>::empty());
        r
    }

    /// Whether another item can be pushed: handles are never reused, and
    /// `push` needs one that was not given out yet.
    pub fn can_push(&self) -> (r: bool)
        ensures
            r == (self@.next_key < u64::MAX),
    {
        self.next_key < u64::MAX
    }

    /// Number of live items, shown or not.
    pub fn len(&self) -> (r: usize)
        ensures
            r == self@.items.len(),
    {
        self.items.len()
    }

    /// The ids of the live items, oldest first.
    pub fn ids(&self) -> (r: Vec<String>)
        ensures
            r@.len() == self@.items.len(),
            forall|i: int| 0 <= i < r@.len() ==> #[trigger] r@[i]@ == self@.items[i].note.id,
    {
        let mut r: Vec<String> = Vec::new();
        let mut i: usize = 0;
        while i < self.items.len()
            invariant
                i <= self.items@.len(),
                r@.len() == i,
                forall|k: int| 0 <= k < i ==> #[trigger] r@[k]@ == self@.items[k].note.id,
            decreases self.items@.len() - i,
        {
            assert(self@.items[i as int] == self.items@[i as int]@);
            r.push(self.items[i].notification.id.clone());
            i = i + 1;
        }
        r
    }

    /// The handles of the live items, oldest first.
    pub fn keys(&self) -> (r: Vec<u64>)
        ensures
            r@ == self@.items.map_values(|e: LiveModel| e.key),
    {
        let mut r: Vec<u64> = Vec::new();
        let mut i: usize = 0;
        while i < self.items.len()
            invariant
                i <= self.items@.len(),
                r@ == self@.items.subrange(0, i as int).map_values(|e: LiveModel| e.key),
            decreases self.items@.len() - i,
        {
            assert(self@.items[i as int] == self.items@[i as int]@);
            r.push(self.items[i].key);
            i = i + 1;
            assert(r@ =~= self@.items.subrange(0, i as int).map_values(|e: LiveModel| e.key));
        }
        assert(self@.items.subrange(0, i as int) =~= self@.items);
        r
    }

    /// Appends `n` as the most recent item under a fresh handle; a live item
    /// with the same id leaves first.
    pub fn push(&mut self, n: Notification)
        requires
            list_wf(old(self)@),
            old(self)@.next_key < u64::MAX,
        ensures
            final(self)@ == model_push(old(self)@, n@),
            list_wf(final(self)@),
    {
        let ghost m = self@;
        remove_where(&mut self.items, false, 0, &n.id);
        let key = self.next_key;
        self.items.push(LiveItem { key, notification: n, armed: false });
        self.next_key = self.next_key + 1;
        proof {
            let f = without_id(m.items, n@.id);
            assert(items_model(self.items@) =~= f.push(LiveModel { key, note: n@, armed: false }));
            lemma_push_wf(m, n@);
        }
    }

    /// Drops every item, and with them every pending timer: a timer of an
    /// item from before has no handle left to act on.
    pub fn clear(&mut self)
        requires
            list_wf(old(self)@),
        ensures
            final(self)@ == model_clear(old(self)@),
            list_wf(final(self)@),
    {
        self.items.clear();
        assert(items_model(self.items@) =~= Seq::<LiveModel>::empty());
    }

    /// A dismiss signal from the item under `key` (its timer expired or its
    /// close button was pressed): that item leaves if it is still live; a
    /// stale signal changes nothing. Returns whether an item left.
    pub fn dismiss(&mut self, key: u64) -> (r: bool)
        requires
            list_wf(old(self)@),
        ensures
            final(self)@ == model_dismiss(old(self)@, key),
            r == has_key(old(self)@.items, key),
            list_wf(final(self)@),
    {
        let ghost m = self@;
        let r = remove_where(&mut self.items, true, key, &String::new());
        proof {
            lemma_dismiss_wf(m, key);
        }
        r
    }

    /// A click on the item under `key`. When that item is live and has a
    /// click handler it leaves, and the handler is returned for the owner to
    /// run; otherwise nothing changes and `None` comes back.
    pub fn click(&mut self, key: u64) -> (r: Option<u64>)
        requires
            list_wf(old(self)@),
        ensures
            r == click_handler(old(self)@.items, key),
            final(self)@ == model_click(old(self)@, key),
            list_wf(final(self)@),
    {
        let ghost s = self@.items;
        let mut found: Option<u64> = None;
        let mut done = false;
        let mut j: usize = 0;
        while j < self.items.len() && !done
            invariant
                s == self@.items,
                list_wf(self@),
                j <= s.len(),
                !done ==> found is None,
                !done ==> forall|k: int| 0 <= k < j ==> s[k].key != key,
                done ==> exists|k: int|
                    0 <= k < s.len() && s[k].key == key && s[k].note.on_click == found,
            decreases s.len() - j,
        {
            assert(items_model(self.items@)[j as int] == self.items@[j as int]@);
            if self.items[j].key == key {
                found = self.items[j].notification.on_click;
                done = true;
            }
            j = j + 1;
        }
        proof {
            if done {
                let k = choose|k: int|
                    0 <= k < s.len() && s[k].key == key && s[k].note.on_click == found;
                if found is Some {
                    assert(0 <= k < s.len() && s[k].key == key && s[k].note.on_click is Some);
                    let c = choose|i: int|
                        0 <= i < s.len() && s[i].key == key && s[i].note.on_click is Some;
                    assert(c == k);
                    assert(click_handler(s, key) == found);
                } else {
                    assert forall|i: int| 0 <= i < s.len() implies !(s[i].key == key
                        && s[i].note.on_click is Some) by {
                        if s[i].key == key {
                            assert(i == k);
                        }
                    }
                    assert(click_handler(s, key) == found);
                }
            } else {
                assert(j == s.len());
                assert forall|i: int| 0 <= i < s.len() implies !(s[i].key == key
                    && s[i].note.on_click is Some) by {}
                assert(click_handler(s, key) == found);
            }
        }
        if found.is_some() {
            self.dismiss(key);
        }
        found
    }

    /// Renders the shown window: the most recent `WINDOW` items at most,
    /// oldest first. Every shown item that hides itself gets its timer armed
    /// on its first render only: its handle is listed in `arm` once, and
    /// never again while it is live.
    pub fn render(&mut self) -> (r: ListRender)
        requires
            list_wf(old(self)@),
        ensures
            final(self)@ == model_render(old(self)@),
            list_wf(final(self)@),
            r.arm@ == timers_to_arm(old(self)@.items),
            r.items@.len() == window(old(self)@.items).len(),
            forall|k: int|
                0 <= k < r.items@.len() ==> describes(
                    #[trigger] r.items@[k],
                    window(old(self)@.items)[k].key,
                    window(old(self)@.items)[k].note,
                ),
    {
        let ghost s = self@.items;
        let n: usize = self.items.len();
        let start: usize = if n > WINDOW { n - WINDOW } else { 0 };
        let ghost w = window(s);
        let mut items: Vec<ItemRender> = Vec::new();
        let mut arm: Vec<u64> = Vec::new();
        let mut k: usize = start;
        while k < n
            invariant
                start <= k <= n == s.len() == self.items@.len(),
                start == window_start(n as int),
                w == window(s),
                self@.next_key == old(self)@.next_key,
                s == old(self)@.items,
                items_model(self.items@) =~= Seq::new(
                    s.len(),
                    |i: int| LiveModel { armed: s[i].armed || (start <= i < k), ..s[i] },
                ),
                items@.len() == k - start,
                forall|t: int|
                    0 <= t < k - start ==> describes(#[trigger] items@[t], w[t].key, w[t].note),
                arm@ == w.subrange(0, k - start).filter(|e: LiveModel| needs_timer(e)).map_values(
                    |e: LiveModel| e.key,
                ),
            decreases n - k,
        {
            let ghost t = k - start;
            assert(items_model(self.items@)[k as int] == self.items@[k as int]@);
            assert(w[t] == s[k as int]);
            proof {
                assert(w.subrange(0, t + 1) =~= w.subrange(0, t).push(w[t]));
                w.subrange(0, t).lemma_filter_push(w[t], |e: LiveModel| needs_timer(e));
            }
            let key = self.items[k].key;
            let d = render_item(key, &self.items[k].notification);
            items.push(d);
            if self.items[k].notification.autohide && !self.items[k].armed {
                arm.push(key);
            }
            let ghost before = self.items@;
            self.items[k].armed = true;
            k = k + 1;
            proof {
                assert forall|i: int| 0 <= i < n && i != k - 1 implies self.items@[i] == before[i] by {}
                assert(self.items@[k - 1].key == before[k - 1].key);
                assert(self.items@[k - 1].notification == before[k - 1].notification);
                assert(self.items@[k - 1].armed);
                let f = w.subrange(0, t + 1).filter(|e: LiveModel| needs_timer(e));
                assert(arm@ =~= f.map_values(|e: LiveModel| e.key));
                assert forall|i: int| 0 <= i < n implies #[trigger] items_model(self.items@)[i]
                    == (LiveModel { armed: s[i].armed || (start <= i < k), ..s[i] }) by {
                    assert(items_model(self.items@)[i] == self.items@[i]@);
                    assert(items_model(before)[i] == before[i]@);
                }
                assert(items_model(self.items@) =~= Seq::new(
                    s.len(),
                    |i: int| LiveModel { armed: s[i].armed || (start <= i < k), ..s[i] },
                ));
            }
        }
        proof {
            assert(w.subrange(0, n - start) =~= w);
            assert(self@.items =~= model_render(old(self)@).items);
        }
        ListRender { items, arm }
    }
}

} // verus!
