//! The node address table: which native widget stands for which node of
//! the virtual tree.
//!
//! A node is first known by where it sits in its template, and later by
//! the id that the virtual side gives it. The table answers both
//! questions, and is the one place that knows them.
//!
//! The table is a row of slots. A native handle is the number of the
//! slot that holds its record, so no two records share a handle. A slot
//! that a removal has emptied is taken again by the next record that is
//! made; slot 0 belongs to the root view and is never given to another.

use vstd::prelude::*;
use crate::error::ErrorKind;
use crate::events::{apart_from, EventRegistry};
use crate::template::{copy_path, Blueprint};

verus! {

/// The handle of the root view, under which every widget is first made.
pub const ROOT_HANDLE: usize = 0;

/// The id by which the virtual side names the root view.
pub const ROOT_ID: u64 = 0;

/// A node record: one native widget, where its node sits in its
/// template, and the virtual id it answers to.
#[derive(Clone, Debug, PartialEq, Eq)]
pub struct DioxusTemplate {
    /// The native handle of the widget.
    pub handle: usize,
    /// The template that the node comes from; of no meaning where `path` is empty.
    pub template: usize,
    /// The path of the node in its template, root index first; empty
    /// for a widget that no template asked for.
    pub path: Vec<usize>,
    /// The virtual id, once one is assigned.
    pub id: Option<u64>,
    /// The kind of widget.
    pub blueprint: Blueprint,
}

/// What a `DioxusTemplate` says of its node, as plain values. The
/// handle is not among them: it is the number of the slot.
pub struct RecordView {
    pub template: usize,
    pub path: Seq<usize>,
    pub id: Option<u64>,
    pub blueprint: Blueprint,
}

impl View for DioxusTemplate {
    type V = RecordView;

    open spec fn view(&self) -> RecordView {
        RecordView {
            template: self.template,
            path: self.path@,
            id: self.id,
            blueprint: self.blueprint,
        }
    }
}

/// The record of the root view.
pub open spec fn root_record() -> RecordView {
    RecordView { template: 0, path: Seq::empty(), id: Some(ROOT_ID), blueprint: Blueprint::View }
}

/// The id of the record in slot `i`, if the slot holds a record with an id.
pub open spec fn id_at(slots: Seq<Option<RecordView>>, i: int) -> Option<u64> {
    if 0 <= i < slots.len() {
        match slots[i] {
            Some(r) => r.id,
            None => None,
        }
    } else {
        None
    }
}

/// The template and path of the record in slot `i`, if the slot holds a
/// record that a template asked for.
pub open spec fn key_at(slots: Seq<Option<RecordView>>, i: int) -> Option<(usize, Seq<usize>)> {
    if 0 <= i < slots.len() {
        match slots[i] {
            Some(r) => if r.path.len() > 0 {
                Some((r.template, r.path))
            } else {
                None
            },
            None => None,
        }
    } else {
        None
    }
}

/// The invariant of the table: slot 0 exists, no two records share a
/// virtual id, and no two share a template and path.
pub open spec fn slots_wf(slots: Seq<Option<RecordView>>) -> bool {
    &&& slots.len() >= 1
    &&& forall|i: int, j: int|
        i != j && (#[trigger] id_at(slots, i)) is Some ==> id_at(slots, i) != #[trigger] id_at(
            slots,
            j,
        )
    &&& forall|i: int, j: int|
        i != j && (#[trigger] key_at(slots, i)) is Some ==> key_at(slots, i) != #[trigger] key_at(
            slots,
            j,
        )
}

/// The slot of the record bound to `id`, if there is one.
pub open spec fn id_index(slots: Seq<Option<RecordView>>, id: u64) -> Option<int> {
    if exists|i: int| id_at(slots, i) == Some(id) {
        Some(choose|i: int| id_at(slots, i) == Some(id))
    } else {
        None
    }
}

/// The slot of the record stored under `path` of `template`, if there is one.
pub open spec fn path_index(slots: Seq<Option<RecordView>>, template: usize, path: Seq<usize>) -> Option<
    int,
> {
    if exists|i: int| key_at(slots, i) == Some((template, path)) {
        Some(choose|i: int| key_at(slots, i) == Some((template, path)))
    } else {
        None
    }
}

/// The slot of the record that `path` addresses: the record stored under
/// the path, or else the text-bearing record stored one step above it,
/// whose text slots are part of the widget and have no record.
pub open spec fn locate(slots: Seq<Option<RecordView>>, template: usize, path: Seq<usize>) -> Option<
    int,
> {
    match path_index(slots, template, path) {
        Some(i) => Some(i),
        None => if path.len() > 1 {
            match path_index(slots, template, path.drop_last()) {
                Some(i) => if slots[i]->0.blueprint.text_bearing() {
                    Some(i)
                } else {
                    None
                },
                None => None,
            }
        } else {
            None
        },
    }
}

/// The first empty slot at or after `i`, or the number of slots.
pub open spec fn vacancy(slots: Seq<Option<RecordView>>, i: int) -> int
    decreases slots.len() - i,
{
    if 0 <= i < slots.len() && slots[i] is Some {
        vacancy(slots, i + 1)
    } else {
        i
    }
}

/// The slots once `record` sits in slot `handle`, which is an empty
/// slot or the first one past the end.
pub open spec fn placed(slots: Seq<Option<RecordView>>, handle: int, record: RecordView) -> Seq<
    Option<RecordView>,
> {
    if 0 <= handle < slots.len() {
        slots.update(handle, Some(record))
    } else {
        slots.push(Some(record))
    }
}

/// What binding a path gives: the slots, the handle of the record under
/// the path, and whether the record was made just now.
pub open spec fn bind_outcome(
    slots: Seq<Option<RecordView>>,
    template: usize,
    path: Seq<usize>,
    blueprint: Blueprint,
) -> (Seq<Option<RecordView>>, int, bool) {
    match path_index(slots, template, path) {
        Some(i) => (slots, i, false),
        None => {
            let handle = vacancy(slots, 1);
            (
                placed(slots, handle, RecordView { template, path, id: None, blueprint }),
                handle,
                true,
            )
        },
    }
}

/// What making a widget that is born with an id gives: the slots and
/// the handle of the new record, or `DuplicateId` where the id is taken.
pub open spec fn create_outcome(slots: Seq<Option<RecordView>>, id: u64, blueprint: Blueprint) -> Result<
    (Seq<Option<RecordView>>, int),
    ErrorKind,
> {
    if id_index(slots, id) is Some {
        Err(ErrorKind::DuplicateId)
    } else {
        let handle = vacancy(slots, 1);
        Ok(
            (
                placed(
                    slots,
                    handle,
                    RecordView { template: 0, path: Seq::empty(), id: Some(id), blueprint },
                ),
                handle,
            ),
        )
    }
}

/// The record `r` with the virtual id `id`.
pub open spec fn with_id(r: RecordView, id: u64) -> RecordView {
    RecordView { template: r.template, path: r.path, id: Some(id), blueprint: r.blueprint }
}

/// What assigning `id` to the record that `path` addresses gives: the
/// slots and the handle of that record; `UnknownPath` where the path
/// addresses no record; `DuplicateId` where the record already answers
/// to another id or another record answers to `id`. Assigning a record
/// the id it already has changes nothing.
pub open spec fn assign_outcome(
    slots: Seq<Option<RecordView>>,
    template: usize,
    path: Seq<usize>,
    id: u64,
) -> Result<(Seq<Option<RecordView>>, int), ErrorKind> {
    match locate(slots, template, path) {
        None => Err(ErrorKind::UnknownPath),
        Some(i) => {
            let r = slots[i]->0;
            if r.id == Some(id) {
                Ok((slots, i))
            } else if r.id is Some || id_index(slots, id) is Some {
                Err(ErrorKind::DuplicateId)
            } else {
                Ok((slots.update(i, Some(with_id(r, id))), i))
            }
        },
    }
}

/// What removing the record bound to `id` gives: the slots and the
/// handle that the record had, or `UnboundId`.
pub open spec fn remove_outcome(slots: Seq<Option<RecordView>>, id: u64) -> Result<
    (Seq<Option<RecordView>>, int),
    ErrorKind,
> {
    match id_index(slots, id) {
        Some(i) => Ok((slots.update(i, None), i)),
        None => Err(ErrorKind::UnboundId),
    }
}

pub proof fn lemma_vacancy(slots: Seq<Option<RecordView>>, i: int)
    requires
        0 <= i <= slots.len(),
    ensures
        i <= vacancy(slots, i) <= slots.len(),
        vacancy(slots, i) < slots.len() ==> slots[vacancy(slots, i)] is None,
    decreases slots.len() - i,
{
    if i < slots.len() && slots[i] is Some {
        lemma_vacancy(slots, i + 1);
    }
}

/// Under the invariant, the slot that holds an id is the one that
/// `id_index` names.
pub proof fn lemma_id_index(slots: Seq<Option<RecordView>>, id: u64, i: int)
    requires
        slots_wf(slots),
        id_at(slots, i) == Some(id),
    ensures
        id_index(slots, id) == Some(i),
{
    let j = choose|j: int| id_at(slots, j) == Some(id);
    if j != i {
        assert(id_at(slots, i) != id_at(slots, j));
    }
}

/// Under the invariant, the slot that holds a path is the one that
/// `path_index` names.
pub proof fn lemma_path_index(slots: Seq<Option<RecordView>>, template: usize, path: Seq<usize>, i: int)
    requires
        slots_wf(slots),
        key_at(slots, i) == Some((template, path)),
    ensures
        path_index(slots, template, path) == Some(i),
{
    let j = choose|j: int| key_at(slots, j) == Some((template, path));
    if j != i {
        assert(key_at(slots, i) != key_at(slots, j));
    }
}

/// What `id_index`, `path_index` and `locate` name lies within the
/// slots and holds the record asked for.
pub proof fn lemma_index_in_range(slots: Seq<Option<RecordView>>)
    ensures
        forall|id: u64| #[trigger]
            id_index(slots, id) is Some ==> id_at(slots, id_index(slots, id)->0) == Some(id),
        forall|template: usize, path: Seq<usize>| #[trigger]
            path_index(slots, template, path) is Some ==> key_at(
                slots,
                path_index(slots, template, path)->0,
            ) == Some((template, path)),
        forall|template: usize, path: Seq<usize>| #[trigger]
            locate(slots, template, path) is Some ==> 0 <= locate(slots, template, path)->0
                < slots.len() && slots[locate(slots, template, path)->0] is Some,
{
    assert forall|template: usize, path: Seq<usize>| #[trigger]
        locate(slots, template, path) is Some implies 0 <= locate(slots, template, path)->0
        < slots.len() && slots[locate(slots, template, path)->0] is Some by {
        let i = locate(slots, template, path)->0;
        if path_index(slots, template, path) is Some {
            assert(key_at(slots, i) == Some((template, path)));
        } else {
            assert(key_at(slots, i) == Some((template, path.drop_last())));
        }
    }
}

/// Placing a fresh record keeps the invariant, as long as its id and
/// its path are not yet in the table.
pub proof fn lemma_placed_wf(slots: Seq<Option<RecordView>>, record: RecordView)
    requires
        slots_wf(slots),
        record.id matches Some(id) ==> id_index(slots, id) is None,
        record.path.len() > 0 ==> path_index(slots, record.template, record.path) is None,
    ensures
        slots_wf(placed(slots, vacancy(slots, 1), record)),
        placed(slots, vacancy(slots, 1), record).len() >= slots.len(),
        forall|i: int|
            0 <= i < slots.len() && i != vacancy(slots, 1) ==> placed(
                slots,
                vacancy(slots, 1),
                record,
            )[i] == slots[i],
        placed(slots, vacancy(slots, 1), record)[vacancy(slots, 1)] == Some(record),
{
    lemma_vacancy(slots, 1);
    let h = vacancy(slots, 1);
    let after = placed(slots, h, record);
    assert forall|i: int, j: int| i != j && (#[trigger] id_at(after, i)) is Some implies id_at(
        after,
        i,
    ) != #[trigger] id_at(after, j) by {
        if i == h {
            if j != h && id_at(after, j) == id_at(after, i) {
                assert(id_at(slots, j) == Some(record.id->0));
            }
        } else if j == h {
            if id_at(after, j) == id_at(after, i) {
                assert(id_at(slots, i) == Some(record.id->0));
            }
        } else {
            assert(id_at(after, i) == id_at(slots, i));
            assert(id_at(after, j) == id_at(slots, j));
        }
    }
    assert forall|i: int, j: int| i != j && (#[trigger] key_at(after, i)) is Some implies key_at(
        after,
        i,
    ) != #[trigger] key_at(after, j) by {
        if i == h {
            if j != h && key_at(after, j) == key_at(after, i) {
                assert(key_at(slots, j) == Some((record.template, record.path)));
            }
        } else if j == h {
            if key_at(after, j) == key_at(after, i) {
                assert(key_at(slots, i) == Some((record.template, record.path)));
            }
        } else {
            assert(key_at(after, i) == key_at(slots, i));
            assert(key_at(after, j) == key_at(slots, j));
        }
    }
}

/// Binding a path keeps the invariant.
pub proof fn lemma_bind_wf(
    slots: Seq<Option<RecordView>>,
    template: usize,
    path: Seq<usize>,
    blueprint: Blueprint,
)
    requires
        slots_wf(slots),
    ensures
        slots_wf(bind_outcome(slots, template, path, blueprint).0),
        bind_outcome(slots, template, path, blueprint).0.len() >= slots.len(),
{
    if path_index(slots, template, path) is None {
        lemma_placed_wf(slots, RecordView { template, path, id: None, blueprint });
    }
}

/// Making a widget with an id keeps the invariant.
pub proof fn lemma_create_wf(slots: Seq<Option<RecordView>>, id: u64, blueprint: Blueprint)
    requires
        slots_wf(slots),
        create_outcome(slots, id, blueprint) is Ok,
    ensures
        slots_wf(create_outcome(slots, id, blueprint)->Ok_0.0),
        create_outcome(slots, id, blueprint)->Ok_0.0.len() >= slots.len(),
{
    lemma_placed_wf(slots, RecordView { template: 0, path: Seq::empty(), id: Some(id), blueprint });
}

/// Assigning an id keeps the invariant.
pub proof fn lemma_assign_wf(
    slots: Seq<Option<RecordView>>,
    template: usize,
    path: Seq<usize>,
    id: u64,
)
    requires
        slots_wf(slots),
        assign_outcome(slots, template, path, id) is Ok,
    ensures
        slots_wf(assign_outcome(slots, template, path, id)->Ok_0.0),
        assign_outcome(slots, template, path, id)->Ok_0.0.len() == slots.len(),
{
    lemma_index_in_range(slots);
    let i = locate(slots, template, path)->0;
    let r = slots[i]->0;
    if r.id != Some(id) {
        let after = slots.update(i, Some(with_id(r, id)));
        assert forall|a: int, b: int| a != b && (#[trigger] id_at(after, a)) is Some implies id_at(
            after,
            a,
        ) != #[trigger] id_at(after, b) by {
            if a == i {
                if id_at(after, b) == Some(id) {
                    assert(id_at(slots, b) == Some(id));
                }
            } else if b == i {
                if id_at(after, a) == Some(id) {
                    assert(id_at(slots, a) == Some(id));
                }
            } else {
                assert(id_at(after, a) == id_at(slots, a));
                assert(id_at(after, b) == id_at(slots, b));
            }
        }
        assert forall|a: int, b: int| a != b && (#[trigger] key_at(after, a)) is Some implies key_at(
            after,
            a,
        ) != #[trigger] key_at(after, b) by {
            assert(key_at(after, a) == key_at(slots, a));
            assert(key_at(after, b) == key_at(slots, b));
        }
    }
}

/// Emptying a slot keeps the invariant of the table.
pub proof fn lemma_release_wf(slots: Seq<Option<RecordView>>, h: int)
    requires
        slots_wf(slots),
        0 <= h < slots.len(),
    ensures
        slots_wf(slots.update(h, None)),
{
    let after = slots.update(h, None);
    assert forall|a: int, b: int| a != b && (#[trigger] id_at(after, a)) is Some implies id_at(
        after,
        a,
    ) != #[trigger] id_at(after, b) by {
        assert(id_at(after, a) == id_at(slots, a));
        if b != h {
            assert(id_at(after, b) == id_at(slots, b));
        }
    }
    assert forall|a: int, b: int| a != b && (#[trigger] key_at(after, a)) is Some implies key_at(
        after,
        a,
    ) != #[trigger] key_at(after, b) by {
        assert(key_at(after, a) == key_at(slots, a));
        if b != h {
            assert(key_at(after, b) == key_at(slots, b));
        }
    }
}

/// Removing a record keeps the invariant, and leaves its id unbound.
pub proof fn lemma_remove_wf(slots: Seq<Option<RecordView>>, id: u64)
    requires
        slots_wf(slots),
        remove_outcome(slots, id) is Ok,
    ensures
        slots_wf(remove_outcome(slots, id)->Ok_0.0),
        remove_outcome(slots, id)->Ok_0.0.len() == slots.len(),
        id_index(remove_outcome(slots, id)->Ok_0.0, id) is None,
{
    lemma_index_in_range(slots);
    let i = id_index(slots, id)->0;
    let after = slots.update(i, None);
    assert forall|a: int| id_at(after, a) != Some(id) by {
        if a != i && id_at(after, a) == Some(id) {
            assert(id_at(slots, a) == Some(id));
            assert(id_at(slots, i) == Some(id));
        }
    }
    assert forall|a: int, b: int| a != b && (#[trigger] id_at(after, a)) is Some implies id_at(
        after,
        a,
    ) != #[trigger] id_at(after, b) by {
        assert(id_at(after, a) == id_at(slots, a));
        if b != i {
            assert(id_at(after, b) == id_at(slots, b));
        }
    }
    assert forall|a: int, b: int| a != b && (#[trigger] key_at(after, a)) is Some implies key_at(
        after,
        a,
    ) != #[trigger] key_at(after, b) by {
        assert(key_at(after, a) == key_at(slots, a));
        if b != i {
            assert(key_at(after, b) == key_at(slots, b));
        }
    }
}

/// What a slot holds, as plain values.
pub open spec fn slot_view(slot: Option<DioxusTemplate>) -> Option<RecordView> {
    match slot {
        Some(r) => Some(r@),
        None => None,
    }
}

/// The node address table.
pub struct NodeTable {
    slots: Vec<Option<DioxusTemplate>>,
}

impl View for NodeTable {
    type V = Seq<Option<RecordView>>;

    closed spec fn view(&self) -> Seq<Option<RecordView>> {
        self.slots@.map_values(|slot: Option<DioxusTemplate>| slot_view(slot))
    }
}

/// Whether two paths are the same.
pub fn same_path(a: &Vec<usize>, b: &Vec<usize>) -> (r: bool)
    ensures
        r == (a@ == b@),
{
    if a.len() != b.len() {
        return false;
    }
    let mut i: usize = 0;
    while i < a.len()
        invariant
            i <= a.len(),
            a.len() == b.len(),
            forall|k: int| 0 <= k < i ==> a@[k] == b@[k],
        decreases a.len() - i,
    {
        if a[i] != b[i] {
            return false;
        }
        i += 1;
    }
    assert(a@ =~= b@);
    true
}

/// A copy of a record.
fn copy_of(record: &DioxusTemplate) -> (copy: DioxusTemplate)
    ensures
        copy@ == record@,
        copy.handle == record.handle,
{
    DioxusTemplate {
        handle: record.handle,
        template: record.template,
        path: copy_path(&record.path),
        id: record.id,
        blueprint: record.blueprint,
    }
}

impl NodeTable {
    /// Every record carries the number of its slot as its handle.
    pub closed spec fn handles_in_place(&self) -> bool {
        forall|i: int|
            0 <= i < self.slots.len() ==> ((#[trigger] self.slots[i]) matches Some(r) ==> r.handle
                == i)
    }

    /// The invariant: no two records share a virtual id, no two share a
    /// template and path, and each carries its own handle.
    pub open spec fn wf(&self) -> bool {
        slots_wf(self@) && self.handles_in_place()
    }

    /// A table that holds the record of the root view and nothing else.
    pub fn new() -> (table: NodeTable)
        ensures
            table@ == seq![Some(root_record())],
            table.wf(),
    {
        let mut slots: Vec<Option<DioxusTemplate>> = Vec::new();
        slots.push(
            Some(
                DioxusTemplate {
                    handle: ROOT_HANDLE,
                    template: 0,
                    path: Vec::new(),
                    id: Some(ROOT_ID),
                    blueprint: Blueprint::View,
                },
            ),
        );
        let table = NodeTable { slots };
        assert(table@ =~= seq![Some(root_record())]);
        table
    }

    /// Forgets every record but that of the root view, which is made anew.
    pub fn clear(&mut self)
        ensures
            final(self)@ == seq![Some(root_record())],
            final(self).wf(),
    {
        let fresh = NodeTable::new();
        self.slots = fresh.slots;
    }

    /// A copy of the table.
    pub fn duplicate(&self) -> (copy: NodeTable)
        ensures
            copy@ == self@,
            self.wf() ==> copy.wf(),
    {
        let mut slots: Vec<Option<DioxusTemplate>> = Vec::new();
        let mut i: usize = 0;
        while i < self.slots.len()
            invariant
                i <= self.slots.len(),
                slots.len() == i,
                forall|k: int| 0 <= k < i ==> slot_view(slots[k]) == slot_view(self.slots[k]),
                forall|k: int|
                    0 <= k < i ==> ((#[trigger] slots[k]) matches Some(r) ==> self.slots[k] is Some
                        && r.handle == self.slots[k]->0.handle),
            decreases self.slots.len() - i,
        {
            match &self.slots[i] {
                Some(r) => {
                    slots.push(Some(copy_of(r)));
                },
                None => {
                    slots.push(None);
                },
            }
            i += 1;
        }
        let copy = NodeTable { slots };
        assert(copy@ =~= self@);
        copy
    }

    /// How many slots the table has, empty ones included.
    pub fn slot_count(&self) -> (n: usize)
        ensures
            n == self@.len(),
    {
        self.slots.len()
    }

    /// The record of the widget `handle`, if there is one.
    pub fn get(&self, handle: usize) -> (record: Option<&DioxusTemplate>)
        ensures
            match record {
                Some(r) => handle < self@.len() && self@[handle as int] == Some(r@),
                None => handle >= self@.len() || self@[handle as int] is None,
            },
    {
        if handle < self.slots.len() {
            match &self.slots[handle] {
                Some(r) => Some(r),
                None => None,
            }
        } else {
            None
        }
    }

    /// The slot of the record bound to `id`.
    fn find_id(&self, id: u64) -> (found: Option<usize>)
        requires
            self.wf(),
        ensures
            match found {
                Some(i) => id_index(self@, id) == Some(i as int) && i < self@.len() && self@[i as int] is Some,
                None => id_index(self@, id) is None,
            },
    {
        let mut i: usize = 0;
        while i < self.slots.len()
            invariant
                i <= self.slots.len(),
                self.wf(),
                forall|k: int| 0 <= k < i ==> id_at(self@, k) != Some(id),
            decreases self.slots.len() - i,
        {
            match &self.slots[i] {
                Some(r) => {
                    if r.id == Some(id) {
                        proof {
                            assert(id_at(self@, i as int) == Some(id));
                            lemma_id_index(self@, id, i as int);
                        }
                        return Some(i);
                    }
                },
                None => {},
            }
            i += 1;
        }
        None
    }

    /// The slot of the record stored under `path` of `template`.
    fn find_path(&self, template: usize, path: &Vec<usize>) -> (found: Option<usize>)
        requires
            self.wf(),
        ensures
            match found {
                Some(i) => path_index(self@, template, path@) == Some(i as int) && i < self@.len()
                    && self@[i as int] is Some,
                None => path_index(self@, template, path@) is None,
            },
    {
        if path.len() == 0 {
            return None;
        }
        let mut i: usize = 0;
        while i < self.slots.len()
            invariant
                i <= self.slots.len(),
                self.wf(),
                path@.len() > 0,
                forall|k: int| 0 <= k < i ==> key_at(self@, k) != Some((template, path@)),
            decreases self.slots.len() - i,
        {
            match &self.slots[i] {
                Some(r) => {
                    if r.template == template && same_path(&r.path, path) {
                        proof {
                            assert(key_at(self@, i as int) == Some((template, path@)));
                            lemma_path_index(self@, template, path@, i as int);
                        }
                        return Some(i);
                    }
                },
                None => {},
            }
            i += 1;
        }
        None
    }

    /// The handle of the record stored under `path` of `template`
    /// itself, if there is one.
    pub fn handle_at(&self, template: usize, path: &Vec<usize>) -> (found: Option<usize>)
        requires
            self.wf(),
        ensures
            match found {
                Some(i) => path_index(self@, template, path@) == Some(i as int),
                None => path_index(self@, template, path@) is None,
            },
    {
        self.find_path(template, path)
    }

    /// The slot of the record that `path` addresses.
    fn find_target(&self, template: usize, path: &Vec<usize>) -> (found: Option<usize>)
        requires
            self.wf(),
        ensures
            match found {
                Some(i) => locate(self@, template, path@) == Some(i as int) && i < self@.len()
                    && self@[i as int] is Some,
                None => locate(self@, template, path@) is None,
            },
    {
        match self.find_path(template, path) {
            Some(i) => Some(i),
            None => {
                if path.len() > 1 {
                    let mut parent = copy_path(path);
                    parent.pop();
                    assert(parent@ =~= path@.drop_last());
                    match self.find_path(template, &parent) {
                        Some(i) => {
                            match &self.slots[i] {
                                Some(r) => if r.blueprint.is_text_bearing() {
                                    Some(i)
                                } else {
                                    None
                                },
                                None => None,
                            }
                        },
                        None => None,
                    }
                } else {
                    None
                }
            },
        }
    }

    /// The first empty slot after slot 0, or the number of slots.
    fn free_slot(&self) -> (h: usize)
        requires
            self@.len() >= 1,
        ensures
            h == vacancy(self@, 1),
            1 <= h <= self@.len(),
    {
        let mut i: usize = 1;
        while i < self.slots.len() && self.slots[i].is_some()
            invariant
                1 <= i <= self.slots.len(),
                vacancy(self@, i as int) == vacancy(self@, 1),
            decreases self.slots.len() - i,
        {
            i += 1;
        }
        i
    }

    /// Puts `record` into the slot that its handle names.
    fn place(&mut self, record: DioxusTemplate)
        requires
            record.handle <= old(self)@.len(),
            old(self).handles_in_place(),
        ensures
            final(self)@ == placed(old(self)@, record.handle as int, record@),
            final(self).handles_in_place(),
    {
        let h = record.handle;
        if h < self.slots.len() {
            self.slots[h] = Some(record);
            assert(self@ =~= placed(old(self)@, h as int, record@));
        } else {
            self.slots.push(Some(record));
            assert(self@ =~= placed(old(self)@, h as int, record@));
        }
    }

    /// Binds a path: gives the handle of the record stored under `path`
    /// of `template`, and makes the record first where there is none.
    /// The flag says whether it was made. An empty path is no address:
    /// binding it always makes a record.
    pub fn bind_path(&mut self, template: usize, path: &Vec<usize>, blueprint: Blueprint) -> (bound: (
        usize,
        bool,
    ))
        requires
            old(self).wf(),
        ensures
            (final(self)@, bound.0 as int, bound.1) == bind_outcome(
                old(self)@,
                template,
                path@,
                blueprint,
            ),
            final(self).wf(),
            final(self)@.len() >= old(self)@.len(),
    {
        proof {
            lemma_bind_wf(self@, template, path@, blueprint);
        }
        match self.find_path(template, path) {
            Some(i) => (i, false),
            None => {
                let handle = self.free_slot();
                self.place(
                    DioxusTemplate { handle, template, path: copy_path(path), id: None, blueprint },
                );
                (handle, true)
            },
        }
    }

    /// Makes the record of a widget that is born with the id `id` and
    /// comes from no template. Fails with `DuplicateId` where a record
    /// already answers to `id`.
    pub fn create(&mut self, id: u64, blueprint: Blueprint) -> (made: Result<usize, ErrorKind>)
        requires
            old(self).wf(),
        ensures
            match create_outcome(old(self)@, id, blueprint) {
                Ok((slots, handle)) => final(self)@ == slots && made is Ok && made->Ok_0 == handle,
                Err(kind) => final(self)@ == old(self)@ && made == Err::<usize, ErrorKind>(kind),
            },
            final(self).wf(),
            final(self)@.len() >= old(self)@.len(),
    {
        match self.find_id(id) {
            Some(_) => Err(ErrorKind::DuplicateId),
            None => {
                proof {
                    lemma_create_wf(self@, id, blueprint);
                }
                let handle = self.free_slot();
                self.place(
                    DioxusTemplate {
                        handle,
                        template: 0,
                        path: Vec::new(),
                        id: Some(id),
                        blueprint,
                    },
                );
                Ok(handle)
            },
        }
    }

    /// Assigns the virtual id `id` to the record that `path` of
    /// `template` addresses, and gives its handle.
    ///
    /// Fails with `UnknownPath` where the path addresses no record, and
    /// with `DuplicateId` where the record already answers to another
    /// id or another record answers to `id`.
    pub fn assign_id(&mut self, template: usize, path: &Vec<usize>, id: u64) -> (assigned: Result<
        usize,
        ErrorKind,
    >)
        requires
            old(self).wf(),
        ensures
            match assign_outcome(old(self)@, template, path@, id) {
                Ok((slots, handle)) => final(self)@ == slots && assigned is Ok && assigned->Ok_0
                    == handle,
                Err(kind) => final(self)@ == old(self)@ && assigned == Err::<usize, ErrorKind>(kind),
            },
            final(self).wf(),
            final(self)@.len() == old(self)@.len(),
    {
        let i = match self.find_target(template, path) {
            Some(i) => i,
            None => {
                return Err(ErrorKind::UnknownPath);
            },
        };
        let current = match &self.slots[i] {
            Some(r) => r.id,
            None => None,
        };
        if current == Some(id) {
            return Ok(i);
        }
        if current.is_some() {
            return Err(ErrorKind::DuplicateId);
        }
        if self.find_id(id).is_some() {
            return Err(ErrorKind::DuplicateId);
        }
        proof {
            lemma_assign_wf(self@, template, path@, id);
        }
        match &mut self.slots[i] {
            Some(r) => {
                r.id = Some(id);
            },
            None => {},
        }
        assert(self@ =~= old(self)@.update(i as int, Some(with_id(old(self)@[i as int]->0, id))));
        Ok(i)
    }

    /// The record bound to `id`. Fails with `UnboundId` where there is none.
    pub fn lookup_by_id(&self, id: u64) -> (found: Result<&DioxusTemplate, ErrorKind>)
        requires
            self.wf(),
        ensures
            match id_index(self@, id) {
                Some(i) => found is Ok && self@[i] == Some(found->Ok_0@) && found->Ok_0.handle == i,
                None => found is Err && found->Err_0 == ErrorKind::UnboundId,
            },
    {
        match self.find_id(id) {
            Some(i) => match &self.slots[i] {
                Some(r) => Ok(r),
                None => Err(ErrorKind::UnboundId),
            },
            None => Err(ErrorKind::UnboundId),
        }
    }

    /// The record that `path` of `template` addresses. Fails with
    /// `UnknownPath` where there is none.
    pub fn lookup_by_path(&self, template: usize, path: &Vec<usize>) -> (found: Result<
        &DioxusTemplate,
        ErrorKind,
    >)
        requires
            self.wf(),
        ensures
            match locate(self@, template, path@) {
                Some(i) => found is Ok && self@[i] == Some(found->Ok_0@) && found->Ok_0.handle == i,
                None => found is Err && found->Err_0 == ErrorKind::UnknownPath,
            },
    {
        match self.find_target(template, path) {
            Some(i) => match &self.slots[i] {
                Some(r) => Ok(r),
                None => Err(ErrorKind::UnknownPath),
            },
            None => Err(ErrorKind::UnknownPath),
        }
    }

    /// Removes the record of the widget `handle`, whether it has an id
    /// or not, together with the event bindings on the widget and those
    /// that go to its id. Says whether there was such a record; where
    /// there was none, nothing changes.
    pub fn release(&mut self, handle: usize, events: &mut EventRegistry) -> (released: bool)
        requires
            old(self).wf(),
            old(events).wf(),
        ensures
            released == (handle < old(self)@.len() && old(self)@[handle as int] is Some),
            released ==> final(self)@ == old(self)@.update(handle as int, None) && final(events)@
                == old(events)@.filter(apart_from(handle, old(self)@[handle as int]->0.id)),
            !released ==> final(self)@ == old(self)@ && final(events)@ == old(events)@,
            final(self).wf(),
            final(events).wf(),
    {
        if handle >= self.slots.len() {
            return false;
        }
        let id = match &self.slots[handle] {
            Some(r) => r.id,
            None => {
                return false;
            },
        };
        proof {
            lemma_release_wf(self@, handle as int);
        }
        self.slots[handle] = None;
        assert(self@ =~= old(self)@.update(handle as int, None));
        events.purge(handle, id);
        true
    }

    /// Removes the record bound to `id` and gives the handle it had, so
    /// that the widget can be torn down. Every event binding on that
    /// widget, and every one that goes to `id`, leaves `events` with it.
    /// Fails with `UnboundId` where no record answers to `id`; nothing
    /// changes then.
    pub fn remove(&mut self, id: u64, events: &mut EventRegistry) -> (removed: Result<
        usize,
        ErrorKind,
    >)
        requires
            old(self).wf(),
            old(events).wf(),
        ensures
            match remove_outcome(old(self)@, id) {
                Ok((slots, handle)) => final(self)@ == slots && removed is Ok && removed->Ok_0
                    == handle && final(events)@ == old(events)@.filter(
                    apart_from(removed->Ok_0, Some(id)),
                ),
                Err(kind) => final(self)@ == old(self)@ && removed == Err::<usize, ErrorKind>(kind)
                    && final(events)@ == old(events)@,
            },
            final(self).wf(),
            final(events).wf(),
            final(self)@.len() == old(self)@.len(),
    {
        match self.find_id(id) {
            Some(i) => {
                proof {
                    lemma_remove_wf(self@, id);
                }
                self.slots[i] = None;
                assert(self@ =~= old(self)@.update(i as int, None));
                events.purge(i, Some(id));
                Ok(i)
            },
            None => Err(ErrorKind::UnboundId),
        }
    }
}

} // verus!
