//! The scene: which widget sits inside which, and in what order.
//!
//! Makepad keeps the children of a view to itself, so whoever carries
//! out the operations of the bridge has to keep the order of the
//! widgets. The scene is that record, and says what the operations mean
//! for it. It is one list of entries, each a widget with its parent, in
//! the order in which the widgets are drawn; the children of a widget
//! are the entries that name it as parent, in list order.
//!
//! A widget sits in one place at most, and the root view sits in
//! nothing: no operation makes it the child of another widget.

use vstd::prelude::*;
use crate::backend::{BackendOp, OpView, Placement};
use crate::table::ROOT_HANDLE;

verus! {

/// A widget and the widget it sits in.
#[derive(Clone, Copy, Debug, PartialEq, Eq, Structural)]
pub struct Entry {
    pub child: usize,
    pub parent: usize,
}

/// Holds of every entry but that of the widget `handle`.
pub open spec fn not_of(handle: usize) -> spec_fn(Entry) -> bool {
    |e: Entry| e.child != handle
}

/// Holds of the entries that are neither that of the widget `handle`
/// nor those of its children.
pub open spec fn apart_from(handle: usize) -> spec_fn(Entry) -> bool {
    |e: Entry| e.child != handle && e.parent != handle
}

/// Holds of the entries of the children of `parent`.
pub open spec fn inside(parent: usize) -> spec_fn(Entry) -> bool {
    |e: Entry| e.parent == parent
}

/// No widget has two entries, and the root view has none.
pub open spec fn entries_wf(entries: Seq<Entry>) -> bool {
    &&& forall|i: int, j: int| 0 <= i < j < entries.len() ==> entries[i].child != entries[j].child
    &&& forall|i: int| 0 <= i < entries.len() ==> (#[trigger] entries[i]).child != ROOT_HANDLE
}

/// Where the entry of the widget `handle` stands, if it has one.
pub open spec fn place_of(entries: Seq<Entry>, handle: usize) -> Option<int> {
    if exists|i: int| 0 <= i < entries.len() && (#[trigger] entries[i]).child == handle {
        Some(choose|i: int| 0 <= i < entries.len() && (#[trigger] entries[i]).child == handle)
    } else {
        None
    }
}

/// The children of `parent`, in order.
pub open spec fn children_of(entries: Seq<Entry>, parent: usize) -> Seq<usize> {
    entries.filter(inside(parent)).map_values(|e: Entry| e.child)
}

/// The scene once the widget `handle` is made under `parent`: it comes
/// last among the children of `parent`, and has no children itself,
/// whatever sat under that handle before. The root view is not made: it
/// is there.
pub open spec fn created(entries: Seq<Entry>, handle: usize, parent: usize) -> Seq<Entry> {
    if handle == ROOT_HANDLE {
        entries
    } else {
        entries.filter(apart_from(handle)).push(Entry { child: handle, parent })
    }
}

/// The scene once `child` is moved into `target`, behind the children
/// that `target` has. The root view does not move.
pub open spec fn moved_inside(entries: Seq<Entry>, target: usize, child: usize) -> Seq<Entry> {
    if child == ROOT_HANDLE {
        entries
    } else {
        entries.filter(not_of(child)).push(Entry { child, parent: target })
    }
}

/// The scene once `child` is moved next to `anchor`, into the parent of
/// `anchor`: just behind it where `behind` is set, just in front of it
/// otherwise. Where `anchor` is not in the scene, or is `child` itself,
/// nothing moves; nor does the root view.
pub open spec fn moved_beside(entries: Seq<Entry>, anchor: usize, child: usize, behind: bool) -> Seq<
    Entry,
> {
    let rest = entries.filter(not_of(child));
    match place_of(rest, anchor) {
        Some(i) => if child == ROOT_HANDLE {
            entries
        } else {
            rest.insert(
                if behind {
                    i + 1
                } else {
                    i
                },
                Entry { child, parent: rest[i].parent },
            )
        },
        None => entries,
    }
}

/// The scene once the first `n` of `children` are attached relative to
/// `target`, one after the other. Inside `target` they come behind its
/// children in the order given; before it they come in the order given,
/// ending just in front of it; after it they come in the order given,
/// starting just behind it.
pub open spec fn attached(
    entries: Seq<Entry>,
    target: usize,
    children: Seq<usize>,
    placement: Placement,
    n: int,
) -> Seq<Entry>
    decreases n,
{
    if n <= 0 || n > children.len() {
        entries
    } else {
        let before = attached(entries, target, children, placement, n - 1);
        match placement {
            Placement::Inside => moved_inside(before, target, children[n - 1]),
            Placement::Before => moved_beside(before, target, children[n - 1], false),
            Placement::After => moved_beside(
                before,
                if n == 1 {
                    target
                } else {
                    children[n - 2]
                },
                children[n - 1],
                true,
            ),
        }
    }
}

/// What an operation does to the scene. Those that set text, write
/// properties or ask for a redraw leave it as it is.
pub open spec fn applied(entries: Seq<Entry>, op: OpView) -> Seq<Entry> {
    match op {
        OpView::ClearRoot => Seq::empty(),
        OpView::CreateWidget { handle, parent, .. } => created(entries, handle, parent),
        OpView::AttachChildren { target, children, placement } => attached(
            entries,
            target,
            children,
            placement,
            children.len() as int,
        ),
        OpView::Detach { handle } => entries.filter(not_of(handle)),
        _ => entries,
    }
}

/// Filtering keeps a scene well formed, and what is left was there.
pub proof fn lemma_filter_keeps_wf(entries: Seq<Entry>, pred: spec_fn(Entry) -> bool)
    requires
        entries_wf(entries),
    ensures
        entries_wf(entries.filter(pred)),
        forall|k: int|
            0 <= k < entries.filter(pred).len() ==> entries.contains(
                #[trigger] entries.filter(pred)[k],
            ) && pred(entries.filter(pred)[k]),
    decreases entries.len(),
{
    reveal(Seq::filter);
    if entries.len() > 0 {
        let front = entries.drop_last();
        let last = entries.last();
        assert(entries_wf(front)) by {
            assert forall|i: int, j: int| 0 <= i < j < front.len() implies front[i].child
                != front[j].child by {
                assert(front[i] == entries[i] && front[j] == entries[j]);
            }
            assert forall|i: int| 0 <= i < front.len() implies (#[trigger] front[i]).child
                != ROOT_HANDLE by {
                assert(front[i] == entries[i]);
            }
        }
        lemma_filter_keeps_wf(front, pred);
        let kept = front.filter(pred);
        let all = entries.filter(pred);
        assert forall|k: int| 0 <= k < all.len() implies entries.contains(#[trigger] all[k])
            && pred(all[k]) by {
            if k < kept.len() {
                assert(all[k] == kept[k]);
                let w = choose|w: int| 0 <= w < front.len() && front[w] == kept[k];
                assert(entries[w] == kept[k]);
            } else {
                assert(all[k] == last);
                assert(entries[entries.len() - 1] == last);
            }
        }
        assert forall|i: int, j: int| 0 <= i < j < all.len() implies all[i].child
            != all[j].child by {
            if j < kept.len() {
                assert(all[i] == kept[i] && all[j] == kept[j]);
            } else {
                assert(all[j] == last);
                assert(all[i] == kept[i]);
                let w = choose|w: int| 0 <= w < front.len() && front[w] == kept[i];
                assert(entries[w] == kept[i]);
                assert(entries[entries.len() - 1] == last);
            }
        }
        assert forall|i: int| 0 <= i < all.len() implies (#[trigger] all[i]).child
            != ROOT_HANDLE by {
            let w = choose|w: int| 0 <= w < entries.len() && entries[w] == all[i];
            assert(entries[w].child != ROOT_HANDLE);
        }
    }
}

/// Putting the entry of a widget that has none into a scene keeps the
/// scene well formed, wherever it is put.
pub proof fn lemma_insert_keeps_wf(entries: Seq<Entry>, i: int, entry: Entry)
    requires
        entries_wf(entries),
        0 <= i <= entries.len(),
        entry.child != ROOT_HANDLE,
        forall|k: int| 0 <= k < entries.len() ==> (#[trigger] entries[k]).child != entry.child,
    ensures
        entries_wf(entries.insert(i, entry)),
{
    let after = entries.insert(i, entry);
    assert forall|a: int| 0 <= a < after.len() implies (#[trigger] after[a]).child
        != ROOT_HANDLE by {
        if a < i {
            assert(after[a] == entries[a]);
        } else if a > i {
            assert(after[a] == entries[a - 1]);
        }
    }
    assert forall|a: int, b: int| 0 <= a < b < after.len() implies after[a].child
        != after[b].child by {
        let ea = if a < i {
            entries[a]
        } else if a == i {
            entry
        } else {
            entries[a - 1]
        };
        let eb = if b < i {
            entries[b]
        } else if b == i {
            entry
        } else {
            entries[b - 1]
        };
        assert(after[a] == ea);
        assert(after[b] == eb);
    }
}

/// Moving a widget keeps the scene well formed.
pub proof fn lemma_moved_wf(entries: Seq<Entry>, anchor: usize, child: usize, behind: bool)
    requires
        entries_wf(entries),
    ensures
        entries_wf(moved_inside(entries, anchor, child)),
        entries_wf(moved_beside(entries, anchor, child, behind)),
{
    if child != ROOT_HANDLE {
        let rest = entries.filter(not_of(child));
        lemma_filter_keeps_wf(entries, not_of(child));
        lemma_insert_keeps_wf(rest, rest.len() as int, Entry { child, parent: anchor });
        assert(rest.insert(rest.len() as int, Entry { child, parent: anchor }) =~= rest.push(
            Entry { child, parent: anchor },
        ));
        if let Some(i) = place_of(rest, anchor) {
            lemma_insert_keeps_wf(
                rest,
                if behind {
                    i + 1
                } else {
                    i
                },
                Entry { child, parent: rest[i].parent },
            );
        }
    }
}

/// Attaching widgets keeps the scene well formed.
pub proof fn lemma_attached_wf(
    entries: Seq<Entry>,
    target: usize,
    children: Seq<usize>,
    placement: Placement,
    n: int,
)
    requires
        entries_wf(entries),
    ensures
        entries_wf(attached(entries, target, children, placement, n)),
    decreases n,
{
    if 0 < n <= children.len() {
        lemma_attached_wf(entries, target, children, placement, n - 1);
        let before = attached(entries, target, children, placement, n - 1);
        match placement {
            Placement::Inside => lemma_moved_wf(before, target, children[n - 1], false),
            Placement::Before => lemma_moved_wf(before, target, children[n - 1], false),
            Placement::After => lemma_moved_wf(
                before,
                if n == 1 {
                    target
                } else {
                    children[n - 2]
                },
                children[n - 1],
                true,
            ),
        }
    }
}

/// Whatever operation is applied, no widget comes to sit in two places.
pub proof fn lemma_applied_wf(entries: Seq<Entry>, op: OpView)
    requires
        entries_wf(entries),
    ensures
        entries_wf(applied(entries, op)),
{
    match op {
        OpView::CreateWidget { handle, parent, .. } => {
            if handle != ROOT_HANDLE {
                let rest = entries.filter(apart_from(handle));
                lemma_filter_keeps_wf(entries, apart_from(handle));
                lemma_insert_keeps_wf(rest, rest.len() as int, Entry { child: handle, parent });
                assert(rest.insert(rest.len() as int, Entry { child: handle, parent })
                    =~= rest.push(Entry { child: handle, parent }));
            }
        },
        OpView::AttachChildren { target, children, placement } => {
            lemma_attached_wf(entries, target, children, placement, children.len() as int);
        },
        OpView::Detach { handle } => {
            lemma_filter_keeps_wf(entries, not_of(handle));
        },
        _ => {},
    }
}

/// The scene.
pub struct Scene {
    entries: Vec<Entry>,
}

impl View for Scene {
    type V = Seq<Entry>;

    closed spec fn view(&self) -> Seq<Entry> {
        self.entries@
    }
}

/// The entries of `list` whose mark is set, in order.
fn marked(list: &Vec<Entry>, marks: &Vec<bool>, Ghost(pred): Ghost<spec_fn(Entry) -> bool>) -> (kept:
    Vec<Entry>)
    requires
        marks.len() == list.len(),
        forall|i: int| 0 <= i < list.len() ==> marks[i] == pred(#[trigger] list[i]),
    ensures
        kept@ == list@.filter(pred),
{
    let mut kept: Vec<Entry> = Vec::new();
    let mut i: usize = 0;
    assert(list@.take(0).filter(pred) =~= Seq::<Entry>::empty()) by {
        reveal(Seq::filter);
    }
    while i < list.len()
        invariant
            i <= list.len(),
            marks.len() == list.len(),
            forall|k: int| 0 <= k < list.len() ==> marks[k] == pred(#[trigger] list[k]),
            kept@ == list@.take(i as int).filter(pred),
        decreases list.len() - i,
    {
        proof {
            assert(list@.take(i + 1) =~= list@.take(i as int).push(list[i as int]));
            list@.take(i as int).lemma_filter_push(list[i as int], pred);
        }
        if marks[i] {
            kept.push(list[i]);
        }
        i += 1;
    }
    assert(list@.take(list.len() as int) =~= list@);
    kept
}

impl Scene {
    /// No widget has two entries, and the root view has none.
    pub open spec fn wf(&self) -> bool {
        entries_wf(self@)
    }

    /// An empty scene.
    pub fn new() -> (scene: Scene)
        ensures
            scene@ == Seq::<Entry>::empty(),
            scene.wf(),
    {
        Scene { entries: Vec::new() }
    }

    /// How many widgets are in the scene.
    pub fn len(&self) -> (n: usize)
        ensures
            n == self@.len(),
    {
        self.entries.len()
    }

    /// Where the entry of the widget `handle` stands.
    fn position(&self, handle: usize) -> (found: Option<usize>)
        requires
            self.wf(),
        ensures
            match found {
                Some(i) => place_of(self@, handle) == Some(i as int) && i < self@.len()
                    && self@[i as int].child == handle,
                None => place_of(self@, handle) is None,
            },
    {
        let mut i: usize = 0;
        while i < self.entries.len()
            invariant
                i <= self.entries.len(),
                self.wf(),
                forall|k: int| 0 <= k < i ==> (#[trigger] self@[k]).child != handle,
            decreases self.entries.len() - i,
        {
            if self.entries[i].child == handle {
                proof {
                    let j = choose|j: int| 0 <= j < self@.len() && (#[trigger] self@[j]).child == handle;
                    if j < i {
                        assert(self@[j].child != handle);
                    } else if j > i {
                        assert(self@[i as int].child != self@[j].child);
                    }
                }
                return Some(i);
            }
            i += 1;
        }
        None
    }

    /// The widget that `handle` sits in, if it is in the scene.
    pub fn parent_of(&self, handle: usize) -> (parent: Option<usize>)
        requires
            self.wf(),
        ensures
            match place_of(self@, handle) {
                Some(i) => parent == Some(self@[i].parent),
                None => parent is None,
            },
    {
        match self.position(handle) {
            Some(i) => Some(self.entries[i].parent),
            None => None,
        }
    }

    /// The children of `parent`, in the order in which they are drawn.
    pub fn children_of(&self, parent: usize) -> (children: Vec<usize>)
        ensures
            children@ == children_of(self@, parent),
    {
        let ghost pred = inside(parent);
        let mut children: Vec<usize> = Vec::new();
        let mut i: usize = 0;
        assert(self@.take(0).filter(pred) =~= Seq::<Entry>::empty()) by {
            reveal(Seq::filter);
        }
        while i < self.entries.len()
            invariant
                i <= self.entries.len(),
                pred == inside(parent),
                children@ == self@.take(i as int).filter(pred).map_values(|e: Entry| e.child),
            decreases self.entries.len() - i,
        {
            let entry = self.entries[i];
            proof {
                assert(self@.take(i + 1) =~= self@.take(i as int).push(entry));
                self@.take(i as int).lemma_filter_push(entry, pred);
            }
            if entry.parent == parent {
                children.push(entry.child);
                assert(children@ =~= self@.take(i + 1).filter(pred).map_values(
                    |e: Entry| e.child,
                ));
            }
            i += 1;
        }
        assert(self@.take(self.entries.len() as int) =~= self@);
        children
    }

    /// Drops the entry of the widget `handle` and, where `with_children`
    /// is set, those of its children.
    fn drop_entries(&mut self, handle: usize, with_children: bool)
        ensures
            with_children ==> final(self)@ == old(self)@.filter(apart_from(handle)),
            !with_children ==> final(self)@ == old(self)@.filter(not_of(handle)),
    {
        let ghost pred = if with_children {
            apart_from(handle)
        } else {
            not_of(handle)
        };
        let mut marks: Vec<bool> = Vec::new();
        let mut i: usize = 0;
        while i < self.entries.len()
            invariant
                i <= self.entries.len(),
                marks.len() == i,
                pred == if with_children {
                    apart_from(handle)
                } else {
                    not_of(handle)
                },
                forall|k: int| 0 <= k < i ==> marks[k] == pred(#[trigger] self.entries[k]),
            decreases self.entries.len() - i,
        {
            let entry = self.entries[i];
            let keep = entry.child != handle && (!with_children || entry.parent != handle);
            assert(keep == pred(entry));
            marks.push(keep);
            i += 1;
        }
        self.entries = marked(&self.entries, &marks, Ghost(pred));
    }

    /// Moves `child` next to `anchor`.
    fn move_beside(&mut self, anchor: usize, child: usize, behind: bool)
        requires
            old(self).wf(),
        ensures
            final(self)@ == moved_beside(old(self)@, anchor, child, behind),
            final(self).wf(),
    {
        proof {
            lemma_moved_wf(self@, anchor, child, behind);
            lemma_filter_keeps_wf(self@, not_of(child));
        }
        if child == ROOT_HANDLE {
            return;
        }
        let mut rest = Scene { entries: Vec::new() };
        rest.entries = without(&self.entries, child);
        match rest.position(anchor) {
            Some(i) => {
                let parent = rest.entries[i].parent;
                assert(i < rest.entries.len());
                let at = if behind {
                    i + 1
                } else {
                    i
                };
                rest.entries.insert(at, Entry { child, parent });
                self.entries = rest.entries;
            },
            None => {},
        }
    }

    /// Carries an operation over to the scene.
    pub fn apply(&mut self, op: &BackendOp)
        requires
            old(self).wf(),
        ensures
            final(self)@ == applied(old(self)@, op@),
            final(self).wf(),
    {
        proof {
            lemma_applied_wf(self@, op@);
        }
        match op {
            BackendOp::ClearRoot => {
                self.entries = Vec::new();
            },
            BackendOp::CreateWidget { handle, parent, .. } => {
                if *handle != ROOT_HANDLE {
                    self.drop_entries(*handle, true);
                    self.entries.push(Entry { child: *handle, parent: *parent });
                }
            },
            BackendOp::AttachChildren { target, children, placement } => {
                let ghost start = self@;
                let mut k: usize = 0;
                while k < children.len()
                    invariant
                        k <= children.len(),
                        self.wf(),
                        self@ == attached(start, *target, children@, *placement, k as int),
                    decreases children.len() - k,
                {
                    match placement {
                        Placement::Inside => {
                            proof {
                                lemma_moved_wf(self@, *target, children[k as int], false);
                            }
                            if children[k] != ROOT_HANDLE {
                                self.drop_entries(children[k], false);
                                self.entries.push(Entry { child: children[k], parent: *target });
                            }
                        },
                        Placement::Before => {
                            self.move_beside(*target, children[k], false);
                        },
                        Placement::After => {
                            let anchor = if k == 0 {
                                *target
                            } else {
                                children[k - 1]
                            };
                            self.move_beside(anchor, children[k], true);
                        },
                    }
                    k += 1;
                }
            },
            BackendOp::Detach { handle } => {
                self.drop_entries(*handle, false);
            },
            _ => {},
        }
    }
}

/// The entries of `list` but that of the widget `handle`.
fn without(list: &Vec<Entry>, handle: usize) -> (kept: Vec<Entry>)
    ensures
        kept@ == list@.filter(not_of(handle)),
{
    let ghost pred = not_of(handle);
    let mut marks: Vec<bool> = Vec::new();
    let mut i: usize = 0;
    while i < list.len()
        invariant
            i <= list.len(),
            marks.len() == i,
            pred == not_of(handle),
            forall|k: int| 0 <= k < i ==> marks[k] == pred(#[trigger] list[k]),
        decreases list.len() - i,
    {
        marks.push(list[i].child != handle);
        i += 1;
    }
    marked(list, &marks, Ghost(pred))
}

} // verus!
