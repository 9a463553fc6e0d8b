//! The event binding registry: which event names are listened for on
//! which native widget, and on behalf of which virtual node.

use vstd::prelude::*;
use crate::text::same_text;

verus! {

/// An event binding: `name` events on the native widget `handle` go to
/// the virtual node `id`.
#[derive(Clone, Debug, PartialEq, Eq)]
pub struct DioxusListener {
    /// The name of the event, such as `click`.
    pub name: String,
    /// The native widget that is watched.
    pub handle: usize,
    /// The virtual node that hears of it.
    pub id: u64,
}

/// What a `DioxusListener` holds, as plain values.
pub struct ListenerView {
    pub name: Seq<char>,
    pub handle: usize,
    pub id: u64,
}

impl View for DioxusListener {
    type V = ListenerView;

    open spec fn view(&self) -> ListenerView {
        ListenerView { name: self.name@, handle: self.handle, id: self.id }
    }
}

/// The views of a sequence of bindings.
pub open spec fn listener_views(bindings: Seq<DioxusListener>) -> Seq<ListenerView> {
    bindings.map_values(|b: DioxusListener| b@)
}

/// No widget has two bindings for one event name.
pub open spec fn listeners_wf(bindings: Seq<ListenerView>) -> bool {
    forall|i: int, j: int|
        0 <= i < j < bindings.len() ==> !(bindings[i].name == bindings[j].name
            && bindings[i].handle == bindings[j].handle)
}

/// Holds of the bindings for `name` on `handle`.
pub open spec fn keyed(name: Seq<char>, handle: usize) -> spec_fn(ListenerView) -> bool {
    |b: ListenerView| b.name == name && b.handle == handle
}

/// Holds of every binding but the one for `name` on `handle`.
pub open spec fn not_keyed(name: Seq<char>, handle: usize) -> spec_fn(ListenerView) -> bool {
    |b: ListenerView| !(b.name == name && b.handle == handle)
}

/// Holds of the bindings on the widget `handle`.
pub open spec fn on_widget(handle: usize) -> spec_fn(ListenerView) -> bool {
    |b: ListenerView| b.handle == handle
}

/// Holds of the bindings that have to do neither with the widget
/// `handle` nor with the virtual node `id`, where there is one.
pub open spec fn apart_from(handle: usize, id: Option<u64>) -> spec_fn(ListenerView) -> bool {
    |b: ListenerView| b.handle != handle && Some(b.id) != id
}

/// The bindings once `binding` is registered: it takes the place of any
/// earlier binding for the same event name on the same widget.
pub open spec fn registered(bindings: Seq<ListenerView>, binding: ListenerView) -> Seq<
    ListenerView,
> {
    bindings.filter(not_keyed(binding.name, binding.handle)).push(binding)
}

/// The virtual node that hears of `name` events on `handle`, if any.
pub open spec fn listener_of(bindings: Seq<ListenerView>, name: Seq<char>, handle: usize) -> Option<
    u64,
> {
    if exists|i: int| 0 <= i < bindings.len() && keyed(name, handle)(#[trigger] bindings[i]) {
        let i = choose|i: int| 0 <= i < bindings.len() && keyed(name, handle)(#[trigger] bindings[i]);
        Some(bindings[i].id)
    } else {
        None
    }
}

/// Filtering keeps a well-formed sequence of bindings well formed.
pub proof fn lemma_filter_keeps_wf(bindings: Seq<ListenerView>, pred: spec_fn(ListenerView) -> bool)
    requires
        listeners_wf(bindings),
    ensures
        listeners_wf(bindings.filter(pred)),
        forall|k: int|
            0 <= k < bindings.filter(pred).len() ==> bindings.contains(
                #[trigger] bindings.filter(pred)[k],
            ) && pred(bindings.filter(pred)[k]),
    decreases bindings.len(),
{
    reveal(Seq::filter);
    if bindings.len() > 0 {
        let front = bindings.drop_last();
        let last = bindings.last();
        assert(listeners_wf(front)) by {
            assert forall|i: int, j: int| 0 <= i < j < front.len() implies !(front[i].name
                == front[j].name && front[i].handle == front[j].handle) by {
                assert(front[i] == bindings[i] && front[j] == bindings[j]);
            }
        }
        lemma_filter_keeps_wf(front, pred);
        let kept = front.filter(pred);
        let all = bindings.filter(pred);
        assert forall|k: int| 0 <= k < all.len() implies bindings.contains(#[trigger] all[k])
            && pred(all[k]) by {
            if k < kept.len() {
                assert(all[k] == kept[k]);
                let w = choose|w: int| 0 <= w < front.len() && front[w] == kept[k];
                assert(bindings[w] == kept[k]);
            } else {
                assert(all[k] == last);
                assert(bindings[bindings.len() - 1] == last);
            }
        }
        assert forall|i: int, j: int| 0 <= i < j < all.len() implies !(all[i].name == all[j].name
            && all[i].handle == all[j].handle) by {
            if j < kept.len() {
                assert(all[i] == kept[i] && all[j] == kept[j]);
            } else {
                assert(all[j] == last);
                assert(all[i] == kept[i]);
                let w = choose|w: int| 0 <= w < front.len() && front[w] == kept[i];
                assert(bindings[w] == kept[i]);
                assert(bindings[bindings.len() - 1] == last);
            }
        }
    }
}

/// Registering a binding keeps the registry well formed.
pub proof fn lemma_registered_wf(bindings: Seq<ListenerView>, binding: ListenerView)
    requires
        listeners_wf(bindings),
    ensures
        listeners_wf(registered(bindings, binding)),
{
    let pred = not_keyed(binding.name, binding.handle);
    lemma_filter_keeps_wf(bindings, pred);
    let kept = bindings.filter(pred);
    let all = registered(bindings, binding);
    assert forall|i: int, j: int| 0 <= i < j < all.len() implies !(all[i].name == all[j].name
        && all[i].handle == all[j].handle) by {
        if j < kept.len() {
            assert(all[i] == kept[i] && all[j] == kept[j]);
        } else {
            assert(all[i] == kept[i]);
            assert(pred(kept[i]));
        }
    }
}

/// The event binding registry.
pub struct EventRegistry {
    bindings: Vec<DioxusListener>,
}

impl View for EventRegistry {
    type V = Seq<ListenerView>;

    closed spec fn view(&self) -> Seq<ListenerView> {
        listener_views(self.bindings@)
    }
}

proof fn lemma_views_push(bindings: Seq<DioxusListener>, binding: DioxusListener)
    ensures
        listener_views(bindings.push(binding)) == listener_views(bindings).push(binding@),
{
    assert(listener_views(bindings.push(binding)) =~= listener_views(bindings).push(binding@));
}

proof fn lemma_views_take(bindings: Seq<DioxusListener>, i: int)
    requires
        0 <= i < bindings.len(),
    ensures
        listener_views(bindings).take(i + 1) == listener_views(bindings).take(i).push(
            bindings[i]@,
        ),
{
    assert(listener_views(bindings).take(i + 1) =~= listener_views(bindings).take(i).push(
        bindings[i]@,
    ));
}

/// A copy of a binding.
fn copy_of(binding: &DioxusListener) -> (copy: DioxusListener)
    ensures
        copy@ == binding@,
{
    DioxusListener { name: binding.name.clone(), handle: binding.handle, id: binding.id }
}

/// The bindings of `list` whose mark is set, in order.
fn marked(list: &Vec<DioxusListener>, marks: &Vec<bool>, Ghost(pred): Ghost<
    spec_fn(ListenerView) -> bool,
>) -> (kept: Vec<DioxusListener>)
    requires
        marks.len() == list.len(),
        forall|i: int| 0 <= i < list.len() ==> marks[i] == pred(#[trigger] list[i]@),
    ensures
        listener_views(kept@) == listener_views(list@).filter(pred),
{
    let mut kept: Vec<DioxusListener> = Vec::new();
    let mut i: usize = 0;
    assert(listener_views(list@).take(0) =~= Seq::<ListenerView>::empty());
    assert(Seq::<ListenerView>::empty().filter(pred) =~= Seq::<ListenerView>::empty()) by {
        reveal(Seq::filter);
    }
    assert(listener_views(kept@) =~= Seq::<ListenerView>::empty());
    while i < list.len()
        invariant
            i <= list.len(),
            marks.len() == list.len(),
            forall|k: int| 0 <= k < list.len() ==> marks[k] == pred(#[trigger] list[k]@),
            listener_views(kept@) == listener_views(list@).take(i as int).filter(pred),
        decreases list.len() - i,
    {
        proof {
            lemma_views_take(list@, i as int);
            listener_views(list@).take(i as int).lemma_filter_push(list[i as int]@, pred);
        }
        if marks[i] {
            let copy = copy_of(&list[i]);
            proof {
                lemma_views_push(kept@, copy);
            }
            kept.push(copy);
        }
        i += 1;
    }
    assert(listener_views(list@).take(list.len() as int) =~= listener_views(list@));
    kept
}

impl EventRegistry {
    /// No widget has two bindings for one event name.
    pub open spec fn wf(&self) -> bool {
        listeners_wf(self@)
    }

    /// A registry without bindings.
    pub fn new() -> (registry: EventRegistry)
        ensures
            registry@ == Seq::<ListenerView>::empty(),
            registry.wf(),
    {
        let registry = EventRegistry { bindings: Vec::new() };
        assert(registry@ =~= Seq::<ListenerView>::empty());
        registry
    }

    /// Forgets every binding.
    pub fn clear(&mut self)
        ensures
            final(self)@ == Seq::<ListenerView>::empty(),
            final(self).wf(),
    {
        self.bindings.clear();
        assert(self@ =~= Seq::<ListenerView>::empty());
    }

    /// A copy of the registry.
    pub fn duplicate(&self) -> (copy: EventRegistry)
        ensures
            copy@ == self@,
    {
        let mut bindings: Vec<DioxusListener> = Vec::new();
        let mut i: usize = 0;
        while i < self.bindings.len()
            invariant
                i <= self.bindings.len(),
                bindings.len() == i,
                forall|k: int| 0 <= k < i ==> bindings[k]@ == self.bindings[k]@,
            decreases self.bindings.len() - i,
        {
            bindings.push(copy_of(&self.bindings[i]));
            i += 1;
        }
        let copy = EventRegistry { bindings };
        assert(copy@ =~= self@);
        copy
    }

    /// How many bindings are registered.
    pub fn len(&self) -> (n: usize)
        ensures
            n == self@.len(),
    {
        self.bindings.len()
    }

    /// The `i`-th binding, in order of registration.
    pub fn get(&self, i: usize) -> (binding: Option<&DioxusListener>)
        ensures
            i < self@.len() ==> binding is Some && binding->0@ == self@[i as int],
            i >= self@.len() ==> binding is None,
    {
        if i < self.bindings.len() {
            Some(&self.bindings[i])
        } else {
            None
        }
    }

    /// Marks the bindings for `name` on `handle` when `by_name` is set,
    /// those on `handle` otherwise.
    fn marks_on(&self, by_name: bool, name: &str, handle: usize) -> (marks: Vec<bool>)
        ensures
            marks.len() == self.bindings.len(),
            forall|i: int|
                0 <= i < self.bindings.len() ==> marks[i] == (self.bindings[i].handle == handle && (
                !by_name || self.bindings[i].name@ == name@)),
    {
        let mut marks: Vec<bool> = Vec::new();
        let mut i: usize = 0;
        while i < self.bindings.len()
            invariant
                i <= self.bindings.len(),
                marks.len() == i,
                forall|k: int|
                    0 <= k < i ==> marks[k] == (self.bindings[k].handle == handle && (!by_name
                        || self.bindings[k].name@ == name@)),
            decreases self.bindings.len() - i,
        {
            let b = &self.bindings[i];
            let hit = b.handle == handle && (!by_name || same_text(b.name.as_str(), name));
            marks.push(hit);
            i += 1;
        }
        marks
    }

    /// Registers a binding. It takes the place of any binding for the
    /// same event name on the same widget, so that none is ever doubled.
    pub fn register(&mut self, binding: DioxusListener)
        requires
            old(self).wf(),
        ensures
            final(self)@ == registered(old(self)@, binding@),
            final(self).wf(),
    {
        let ghost pred = not_keyed(binding.name@, binding.handle);
        let mut marks = self.marks_on(true, binding.name.as_str(), binding.handle);
        let mut i: usize = 0;
        while i < marks.len()
            invariant
                i <= marks.len() == self.bindings.len(),
                forall|k: int| 0 <= k < i ==> marks[k] == pred(#[trigger] self.bindings[k]@),
                forall|k: int|
                    i <= k < marks.len() ==> marks[k] == !pred(#[trigger] self.bindings[k]@),
            decreases marks.len() - i,
        {
            let m = marks[i];
            marks[i] = !m;
            i += 1;
        }
        let mut kept = marked(&self.bindings, &marks, Ghost(pred));
        proof {
            lemma_views_push(kept@, binding);
            lemma_registered_wf(old(self)@, binding@);
        }
        kept.push(binding);
        self.bindings = kept;
    }

    /// Takes back the binding for `name` on the widget `handle`. Says
    /// whether there was one.
    pub fn unregister(&mut self, name: &str, handle: usize) -> (removed: bool)
        requires
            old(self).wf(),
        ensures
            final(self)@ == old(self)@.filter(not_keyed(name@, handle)),
            removed == (listener_of(old(self)@, name@, handle) is Some),
            final(self).wf(),
    {
        let ghost pred = not_keyed(name@, handle);
        let mut marks = self.marks_on(true, name, handle);
        let mut removed = false;
        let mut i: usize = 0;
        while i < marks.len()
            invariant
                i <= marks.len() == self.bindings.len(),
                forall|k: int| 0 <= k < i ==> marks[k] == pred(#[trigger] self.bindings[k]@),
                forall|k: int|
                    i <= k < marks.len() ==> marks[k] == !pred(#[trigger] self.bindings[k]@),
                removed == exists|k: int| 0 <= k < i && !pred(#[trigger] self.bindings[k]@),
            decreases marks.len() - i,
        {
            let m = marks[i];
            if m {
                removed = true;
            }
            assert(m == !pred(self.bindings[i as int]@));
            marks[i] = !m;
            i += 1;
        }
        let kept = marked(&self.bindings, &marks, Ghost(pred));
        proof {
            lemma_filter_keeps_wf(old(self)@, pred);
            let views = old(self)@;
            if removed {
                let k = choose|k: int| 0 <= k < self.bindings.len() && !pred(#[trigger] self.bindings[k]@);
                assert(keyed(name@, handle)(views[k]));
            } else {
                assert forall|k: int| 0 <= k < views.len() implies !keyed(name@, handle)(
                    #[trigger] views[k],
                ) by {
                    assert(pred(self.bindings[k]@));
                }
            }
        }
        self.bindings = kept;
        removed
    }

    /// Forgets every binding on the widget `handle` and, where `id`
    /// names a virtual node, every binding that goes to it.
    pub fn purge(&mut self, handle: usize, id: Option<u64>)
        requires
            old(self).wf(),
        ensures
            final(self)@ == old(self)@.filter(apart_from(handle, id)),
            final(self).wf(),
    {
        let ghost pred = apart_from(handle, id);
        let mut marks: Vec<bool> = Vec::new();
        let mut i: usize = 0;
        while i < self.bindings.len()
            invariant
                i <= self.bindings.len(),
                marks.len() == i,
                pred == apart_from(handle, id),
                forall|k: int| 0 <= k < i ==> marks[k] == pred(#[trigger] self.bindings[k]@),
            decreases self.bindings.len() - i,
        {
            let b = &self.bindings[i];
            let keep = b.handle != handle && match id {
                Some(gone) => b.id != gone,
                None => true,
            };
            assert(pred(b@) == keep);
            marks.push(keep);
            i += 1;
        }
        let kept = marked(&self.bindings, &marks, Ghost(pred));
        proof {
            lemma_filter_keeps_wf(old(self)@, pred);
        }
        self.bindings = kept;
    }

    /// The bindings on the widget `handle`, in order of registration.
    pub fn bindings_for(&self, handle: usize) -> (found: Vec<DioxusListener>)
        ensures
            listener_views(found@) == self@.filter(on_widget(handle)),
    {
        let marks = self.marks_on(false, "", handle);
        marked(&self.bindings, &marks, Ghost(on_widget(handle)))
    }

    /// The virtual node that hears of `name` events on the widget
    /// `handle`, if there is a binding for them.
    pub fn find(&self, name: &str, handle: usize) -> (id: Option<u64>)
        requires
            self.wf(),
        ensures
            id == listener_of(self@, name@, handle),
    {
        let mut i: usize = 0;
        while i < self.bindings.len()
            invariant
                i <= self.bindings.len(),
                self.wf(),
                forall|k: int| 0 <= k < i ==> !keyed(name@, handle)(#[trigger] self@[k]),
            decreases self.bindings.len() - i,
        {
            let b = &self.bindings[i];
            if b.handle == handle && same_text(b.name.as_str(), name) {
                proof {
                    assert(keyed(name@, handle)(self@[i as int]));
                    let j = choose|j: int| 0 <= j < self@.len() && keyed(name@, handle)(#[trigger] self@[j]);
                    if j < i {
                        assert(!keyed(name@, handle)(self@[j]));
                    } else if j > i {
                        assert(!(self@[i as int].name == self@[j].name && self@[i as int].handle
                            == self@[j].handle));
                    }
                }
                return Some(b.id);
            }
            i += 1;
        }
        None
    }
}

} // verus!
