//! The mutation stack machine: what each instruction does to the node
//! table, the event registry and the operand stack, and which
//! operations it asks of the retained tree.
//!
//! The meaning of a batch is written down first, as functions on plain
//! values; the interpreter below is proved to compute exactly that.

use vstd::prelude::*;
use crate::backend::{
    lemma_op_views_push, op_views, property_ops, push_property_ops, BackendOp, OpView,
    Placement,
};
use crate::error::{BatchError, ErrorKind};
use crate::events::{
    apart_from, lemma_filter_keeps_wf, lemma_registered_wf, listeners_wf, not_keyed, registered,
    DioxusListener, EventRegistry, ListenerView,
};
use crate::instruction::Instruction;
use crate::registry::{
    instantiate_root, instantiated_root, lemma_bound_plan_wf, template_index, TemplateRegistry,
};
use crate::style::{attribute_writes, translate};
use crate::table::{
    assign_outcome, create_outcome, id_index, lemma_assign_wf, lemma_create_wf,
    lemma_index_in_range, lemma_release_wf, lemma_remove_wf, locate, path_index, remove_outcome,
    slots_wf, NodeTable, RecordView, ROOT_HANDLE,
};
use crate::template::{node_plan, Blueprint, Template};

verus! {

/// The state of the machine in the middle of a batch, as plain values.
pub struct MachineView {
    /// The slots of the node table.
    pub slots: Seq<Option<RecordView>>,
    /// The event bindings.
    pub bindings: Seq<ListenerView>,
    /// The operand stack, top last.
    pub stack: Seq<usize>,
    /// The template and the root that the batch loaded last: what the
    /// paths of the instructions that follow start from.
    pub scope: Option<(usize, usize)>,
    /// The operations asked of the retained tree so far.
    pub ops: Seq<OpView>,
}

/// The state in which a batch starts: nothing on the stack, no root
/// loaded, nothing asked yet.
pub open spec fn start(slots: Seq<Option<RecordView>>, bindings: Seq<ListenerView>) -> MachineView {
    MachineView { slots, bindings, stack: Seq::empty(), scope: None, ops: Seq::empty() }
}

/// The invariant of the machine: that of the table and that of the registry.
pub open spec fn machine_wf(m: MachineView) -> bool {
    slots_wf(m.slots) && listeners_wf(m.bindings)
}

/// The path that an instruction means: the path it states, with the
/// index of the template root put back in front.
pub open spec fn normalize(root: usize, path: Seq<usize>) -> Seq<usize> {
    seq![root] + path
}

/// The top `m` references of the stack in the order in which they come
/// off it, the topmost first.
pub open spec fn popped(stack: Seq<usize>, m: int) -> Seq<usize> {
    Seq::new(m as nat, |k: int| stack[stack.len() - 1 - k])
}

/// `LoadTemplate`: the root is instantiated, its widget pushed, and the
/// root becomes what paths start from. `UnknownPath` where no such
/// template or root is registered, or where the root asks for no widget.
pub open spec fn load_template(templates: Seq<Template>, m: MachineView, name: Seq<char>, index: usize) -> Result<
    MachineView,
    ErrorKind,
> {
    match template_index(templates, name) {
        None => Err(ErrorKind::UnknownPath),
        Some(t) => if index >= templates[t].roots@.len() {
            Err(ErrorKind::UnknownPath)
        } else {
            let (slots, ops) = instantiated_root(
                m.slots,
                t as usize,
                ROOT_HANDLE,
                templates[t].roots@[index as int],
                index,
            );
            match path_index(slots, t as usize, seq![index]) {
                None => Err(ErrorKind::UnknownPath),
                Some(handle) => Ok(
                    MachineView {
                        slots,
                        bindings: m.bindings,
                        stack: m.stack.push(handle as usize),
                        scope: Some((t as usize, index)),
                        ops: m.ops + ops,
                    },
                ),
            }
        },
    }
}

/// `CreatePlaceholder` and `CreateTextNode`: a widget is made under the
/// root view, bound to `id`, and pushed. `DuplicateId` where the id is
/// taken.
pub open spec fn create_node(m: MachineView, id: u64, blueprint: Blueprint, text: Option<Seq<char>>) -> Result<
    MachineView,
    ErrorKind,
> {
    match create_outcome(m.slots, id, blueprint) {
        Err(kind) => Err(kind),
        Ok((slots, h)) => {
            let handle = h as usize;
            let made = seq![OpView::CreateWidget { handle, blueprint, parent: ROOT_HANDLE }];
            let shown = match text {
                Some(value) => seq![OpView::SetText { handle, value }],
                None => Seq::empty(),
            };
            Ok(
                MachineView {
                    slots,
                    bindings: m.bindings,
                    stack: m.stack.push(handle),
                    scope: m.scope,
                    ops: m.ops + made + shown,
                },
            )
        },
    }
}

/// `AssignId` and `HydrateText`: the record that the path addresses is
/// bound to `id`, and its text set where there is one to set.
/// `UnknownPath` where no root is loaded or the path addresses no
/// record; `DuplicateId` as the table says.
pub open spec fn assign_node(m: MachineView, path: Seq<usize>, id: u64, text: Option<Seq<char>>) -> Result<
    MachineView,
    ErrorKind,
> {
    match m.scope {
        None => Err(ErrorKind::UnknownPath),
        Some((template, root)) => match assign_outcome(m.slots, template, normalize(root, path), id) {
            Err(kind) => Err(kind),
            Ok((slots, h)) => {
                let shown = match text {
                    Some(value) => seq![OpView::SetText { handle: h as usize, value }],
                    None => Seq::empty(),
                };
                Ok(
                    MachineView {
                        slots,
                        bindings: m.bindings,
                        stack: m.stack,
                        scope: m.scope,
                        ops: m.ops + shown,
                    },
                )
            },
        },
    }
}

/// `SetText` and `SetAttribute`: operations on the widget bound to
/// `id`. `UnboundId` where there is none.
pub open spec fn write_node(m: MachineView, id: u64, ops: spec_fn(usize) -> Seq<OpView>) -> Result<
    MachineView,
    ErrorKind,
> {
    match id_index(m.slots, id) {
        None => Err(ErrorKind::UnboundId),
        Some(h) => Ok(
            MachineView {
                slots: m.slots,
                bindings: m.bindings,
                stack: m.stack,
                scope: m.scope,
                ops: m.ops + ops(h as usize),
            },
        ),
    }
}

/// The operation that sets the text of a widget to `value`.
pub open spec fn text_op(value: Seq<char>) -> spec_fn(usize) -> Seq<OpView> {
    |handle: usize| seq![OpView::SetText { handle, value }]
}

/// The operations that an attribute stands for on a widget.
pub open spec fn attribute_ops(name: Seq<char>, value: Seq<char>) -> spec_fn(usize) -> Seq<OpView> {
    |handle: usize| property_ops(handle, attribute_writes(name, value))
}

/// `NewEventListener`: a binding for `name` on the widget bound to
/// `id`. `UnboundId` where there is none.
pub open spec fn listen(m: MachineView, name: Seq<char>, id: u64) -> Result<MachineView, ErrorKind> {
    match id_index(m.slots, id) {
        None => Err(ErrorKind::UnboundId),
        Some(h) => Ok(
            MachineView {
                slots: m.slots,
                bindings: registered(m.bindings, ListenerView { name, handle: h as usize, id }),
                stack: m.stack,
                scope: m.scope,
                ops: m.ops,
            },
        ),
    }
}

/// `RemoveEventListener`: the binding for `name` on the widget bound to
/// `id` goes. `UnboundId` where there is no such widget.
pub open spec fn unlisten(m: MachineView, name: Seq<char>, id: u64) -> Result<MachineView, ErrorKind> {
    match id_index(m.slots, id) {
        None => Err(ErrorKind::UnboundId),
        Some(h) => Ok(
            MachineView {
                slots: m.slots,
                bindings: m.bindings.filter(not_keyed(name, h as usize)),
                stack: m.stack,
                scope: m.scope,
                ops: m.ops,
            },
        ),
    }
}

/// `AppendChildren`, `InsertBefore` and `InsertAfter`: the top `count`
/// references are popped and attached, topmost first, relative to the
/// widget bound to `id`. `StackUnderflow` where the stack holds fewer;
/// otherwise `UnboundId` where there is no such widget.
pub open spec fn attach(m: MachineView, id: u64, count: usize, placement: Placement) -> Result<
    MachineView,
    ErrorKind,
> {
    if count > m.stack.len() {
        Err(ErrorKind::StackUnderflow)
    } else {
        match id_index(m.slots, id) {
            None => Err(ErrorKind::UnboundId),
            Some(h) => Ok(
                MachineView {
                    slots: m.slots,
                    bindings: m.bindings,
                    stack: m.stack.take(m.stack.len() - count),
                    scope: m.scope,
                    ops: m.ops.push(
                        OpView::AttachChildren {
                            target: h as usize,
                            children: popped(m.stack, count as int),
                            placement,
                        },
                    ),
                },
            ),
        }
    }
}

/// What replacing the widget in slot `h` gives: the popped widgets are
/// put before it, it is detached, and its record and bindings go.
pub open spec fn replaced(m: MachineView, h: int, count: usize) -> MachineView {
    MachineView {
        slots: m.slots.update(h, None),
        bindings: m.bindings.filter(apart_from(h as usize, m.slots[h]->0.id)),
        stack: m.stack.take(m.stack.len() - count),
        scope: m.scope,
        ops: m.ops.push(
            OpView::AttachChildren {
                target: h as usize,
                children: popped(m.stack, count as int),
                placement: Placement::Before,
            },
        ).push(OpView::Detach { handle: h as usize }),
    }
}

/// `ReplaceWith`. `StackUnderflow` where the stack holds fewer than
/// `count`; otherwise `UnboundId` where no widget is bound to `id`.
pub open spec fn replace_with(m: MachineView, id: u64, count: usize) -> Result<MachineView, ErrorKind> {
    if count > m.stack.len() {
        Err(ErrorKind::StackUnderflow)
    } else {
        match id_index(m.slots, id) {
            None => Err(ErrorKind::UnboundId),
            Some(h) => Ok(replaced(m, h, count)),
        }
    }
}

/// `ReplacePlaceholder`. `StackUnderflow` where the stack holds fewer
/// than `count`; otherwise `UnknownPath` where no root is loaded or the
/// path addresses no record.
pub open spec fn replace_placeholder(m: MachineView, path: Seq<usize>, count: usize) -> Result<
    MachineView,
    ErrorKind,
> {
    if count > m.stack.len() {
        Err(ErrorKind::StackUnderflow)
    } else {
        match m.scope {
            None => Err(ErrorKind::UnknownPath),
            Some((template, root)) => match locate(m.slots, template, normalize(root, path)) {
                None => Err(ErrorKind::UnknownPath),
                Some(h) => Ok(replaced(m, h, count)),
            },
        }
    }
}

/// `Remove`: the widget bound to `id` is detached, and its record and
/// bindings go. `UnboundId` where there is none.
pub open spec fn remove_node(m: MachineView, id: u64) -> Result<MachineView, ErrorKind> {
    match remove_outcome(m.slots, id) {
        Err(kind) => Err(kind),
        Ok((slots, h)) => Ok(
            MachineView {
                slots,
                bindings: m.bindings.filter(apart_from(h as usize, Some(id))),
                stack: m.stack,
                scope: m.scope,
                ops: m.ops.push(OpView::Detach { handle: h as usize }),
            },
        ),
    }
}

/// `PushRoot`: the widget bound to `id` is pushed. `UnboundId` where
/// there is none.
pub open spec fn push_root(m: MachineView, id: u64) -> Result<MachineView, ErrorKind> {
    match id_index(m.slots, id) {
        None => Err(ErrorKind::UnboundId),
        Some(h) => Ok(
            MachineView {
                slots: m.slots,
                bindings: m.bindings,
                stack: m.stack.push(h as usize),
                scope: m.scope,
                ops: m.ops,
            },
        ),
    }
}

/// What one instruction does.
pub open spec fn step(templates: Seq<Template>, m: MachineView, instruction: Instruction) -> Result<
    MachineView,
    ErrorKind,
> {
    match instruction {
        Instruction::LoadTemplate { name, index } => load_template(templates, m, name@, index),
        Instruction::CreatePlaceholder { id } => create_node(m, id, Blueprint::View, None),
        Instruction::CreateTextNode { value, id } => create_node(
            m,
            id,
            Blueprint::Label,
            Some(value@),
        ),
        Instruction::AssignId { path, id } => assign_node(m, path@, id, None),
        Instruction::HydrateText { path, value, id } => assign_node(m, path@, id, Some(value@)),
        Instruction::SetText { id, value } => write_node(m, id, text_op(value@)),
        Instruction::SetAttribute { id, name, value, ns } => write_node(
            m,
            id,
            attribute_ops(name@, value@),
        ),
        Instruction::NewEventListener { name, id } => listen(m, name@, id),
        Instruction::RemoveEventListener { name, id } => unlisten(m, name@, id),
        Instruction::AppendChildren { id, m: count } => attach(m, id, count, Placement::Inside),
        Instruction::ReplaceWith { id, m: count } => replace_with(m, id, count),
        Instruction::ReplacePlaceholder { path, m: count } => replace_placeholder(m, path@, count),
        Instruction::InsertBefore { id, m: count } => attach(m, id, count, Placement::Before),
        Instruction::InsertAfter { id, m: count } => attach(m, id, count, Placement::After),
        Instruction::Remove { id } => remove_node(m, id),
        Instruction::PushRoot { id } => push_root(m, id),
    }
}

/// What the first `n` instructions of a batch do, one after the other:
/// the state they leave, or the first instruction that fails and why.
pub open spec fn run(templates: Seq<Template>, m: MachineView, batch: Seq<Instruction>, n: int) -> Result<
    MachineView,
    BatchError,
>
    decreases n,
{
    if n <= 0 || n > batch.len() {
        Ok(m)
    } else {
        match run(templates, m, batch, n - 1) {
            Err(e) => Err(e),
            Ok(before) => match step(templates, before, batch[n - 1]) {
                Ok(after) => Ok(after),
                Err(kind) => Err(BatchError { index: (n - 1) as usize, kind }),
            },
        }
    }
}

/// Whatever an instruction does, it leaves no id bound to two records,
/// no path bound to two records, and no event bound twice on a widget.
pub proof fn lemma_step_wf(templates: Seq<Template>, m: MachineView, instruction: Instruction)
    requires
        machine_wf(m),
        step(templates, m, instruction) is Ok,
    ensures
        machine_wf(step(templates, m, instruction)->Ok_0),
{
    lemma_index_in_range(m.slots);
    match instruction {
        Instruction::LoadTemplate { name, index } => {
            let t = template_index(templates, name@)->0;
            let plan = node_plan(templates[t].roots@[index as int], seq![index]);
            lemma_bound_plan_wf(m.slots, t as usize, ROOT_HANDLE, plan, plan.len() as int);
        },
        Instruction::CreatePlaceholder { id } => {
            lemma_create_wf(m.slots, id, Blueprint::View);
        },
        Instruction::CreateTextNode { value, id } => {
            lemma_create_wf(m.slots, id, Blueprint::Label);
        },
        Instruction::AssignId { path, id } => {
            let (template, root) = m.scope->0;
            lemma_assign_wf(m.slots, template, normalize(root, path@), id);
        },
        Instruction::HydrateText { path, value, id } => {
            let (template, root) = m.scope->0;
            lemma_assign_wf(m.slots, template, normalize(root, path@), id);
        },
        Instruction::NewEventListener { name, id } => {
            let h = id_index(m.slots, id)->0;
            lemma_registered_wf(m.bindings, ListenerView { name: name@, handle: h as usize, id });
        },
        Instruction::RemoveEventListener { name, id } => {
            let h = id_index(m.slots, id)->0;
            lemma_filter_keeps_wf(m.bindings, not_keyed(name@, h as usize));
        },
        Instruction::ReplaceWith { id, m: count } => {
            let h = id_index(m.slots, id)->0;
            lemma_release_wf(m.slots, h);
            lemma_filter_keeps_wf(m.bindings, apart_from(h as usize, m.slots[h]->0.id));
        },
        Instruction::ReplacePlaceholder { path, m: count } => {
            let (template, root) = m.scope->0;
            let h = locate(m.slots, template, normalize(root, path@))->0;
            lemma_release_wf(m.slots, h);
            lemma_filter_keeps_wf(m.bindings, apart_from(h as usize, m.slots[h]->0.id));
        },
        Instruction::Remove { id } => {
            let h = id_index(m.slots, id)->0;
            lemma_remove_wf(m.slots, id);
            lemma_filter_keeps_wf(m.bindings, apart_from(h as usize, Some(id)));
        },
        _ => {},
    }
}

/// A batch that runs through leaves the invariant in place.
pub proof fn lemma_run_wf(templates: Seq<Template>, m: MachineView, batch: Seq<Instruction>, n: int)
    requires
        machine_wf(m),
        run(templates, m, batch, n) is Ok,
    ensures
        machine_wf(run(templates, m, batch, n)->Ok_0),
    decreases n,
{
    if 0 < n <= batch.len() {
        lemma_run_wf(templates, m, batch, n - 1);
        lemma_step_wf(templates, run(templates, m, batch, n - 1)->Ok_0, batch[n - 1]);
    }
}

/// Once a batch has failed, the instructions after the failure change nothing.
pub proof fn lemma_run_stays_failed(
    templates: Seq<Template>,
    m: MachineView,
    batch: Seq<Instruction>,
    k: int,
    n: int,
)
    requires
        0 <= k <= n <= batch.len(),
        run(templates, m, batch, k) is Err,
    ensures
        run(templates, m, batch, n) == run(templates, m, batch, k),
    decreases n - k,
{
    if k < n {
        lemma_run_stays_failed(templates, m, batch, k, n - 1);
    }
}

/// The state of the interpreter, as plain values.
pub open spec fn machine_view(
    table: &NodeTable,
    events: &EventRegistry,
    stack: &Vec<usize>,
    scope: &Option<(usize, usize)>,
    ops: &Vec<BackendOp>,
) -> MachineView {
    MachineView {
        slots: table@,
        bindings: events@,
        stack: stack@,
        scope: *scope,
        ops: op_views(ops@),
    }
}

/// The handle of the widget bound to `id`.
fn bound_handle(table: &NodeTable, id: u64) -> (found: Result<usize, ErrorKind>)
    requires
        table.wf(),
    ensures
        match id_index(table@, id) {
            Some(h) => found is Ok && found->Ok_0 == h,
            None => found is Err && found->Err_0 == ErrorKind::UnboundId,
        },
{
    match table.lookup_by_id(id) {
        Ok(record) => Ok(record.handle),
        Err(kind) => Err(kind),
    }
}

/// Takes the top `count` references off the stack, the topmost first.
fn pop_children(stack: &mut Vec<usize>, count: usize) -> (children: Vec<usize>)
    requires
        count <= old(stack).len(),
    ensures
        children@ == popped(old(stack)@, count as int),
        final(stack)@ == old(stack)@.take(old(stack)@.len() - count),
{
    let mut children: Vec<usize> = Vec::new();
    let mut k: usize = 0;
    while k < count
        invariant
            k <= count <= old(stack).len(),
            stack@ == old(stack)@.take(old(stack)@.len() - k),
            children@ == popped(old(stack)@, k as int),
        decreases count - k,
    {
        let top = stack.pop();
        match top {
            Some(handle) => {
                children.push(handle);
            },
            None => {},
        }
        k += 1;
        assert(stack@ =~= old(stack)@.take(old(stack)@.len() - k));
        assert(children@ =~= popped(old(stack)@, k as int));
    }
    children
}

/// Adds one operation to those asked so far.
fn emit(ops: &mut Vec<BackendOp>, op: BackendOp)
    ensures
        op_views(final(ops)@) == op_views(old(ops)@).push(op@),
{
    proof {
        lemma_op_views_push(ops@, op);
    }
    ops.push(op);
}

/// The path that an instruction means, root index in front.
pub fn normalized(root: usize, path: &Vec<usize>) -> (full: Vec<usize>)
    ensures
        full@ == normalize(root, path@),
{
    let mut full: Vec<usize> = Vec::new();
    full.push(root);
    let mut i: usize = 0;
    while i < path.len()
        invariant
            i <= path.len(),
            full@ == seq![root] + path@.take(i as int),
        decreases path.len() - i,
    {
        full.push(path[i]);
        i += 1;
        assert(full@ =~= seq![root] + path@.take(i as int));
    }
    assert(path@.take(path.len() as int) =~= path@);
    full
}

/// Carries out `LoadTemplate`.
fn do_load(
    registry: &TemplateRegistry,
    table: &mut NodeTable,
    stack: &mut Vec<usize>,
    scope: &mut Option<(usize, usize)>,
    ops: &mut Vec<BackendOp>,
    name: &String,
    index: usize,
    Ghost(bindings): Ghost<Seq<ListenerView>>,
) -> (done: Result<(), ErrorKind>)
    requires
        registry.wf(),
        old(table).wf(),
    ensures
        match load_template(
            registry@,
            MachineView {
                slots: old(table)@,
                bindings,
                stack: old(stack)@,
                scope: *old(scope),
                ops: op_views(old(ops)@),
            },
            name@,
            index,
        ) {
            Ok(m) => done is Ok && m == (MachineView {
                slots: final(table)@,
                bindings,
                stack: final(stack)@,
                scope: *final(scope),
                ops: op_views(final(ops)@),
            }),
            Err(kind) => done == Err::<(), ErrorKind>(kind),
        },
        final(table).wf(),
{
    let t = match registry.find(name.as_str()) {
        Some(t) => t,
        None => {
            return Err(ErrorKind::UnknownPath);
        },
    };
    let template = match registry.get(t) {
        Some(template) => template,
        None => {
            return Err(ErrorKind::UnknownPath);
        },
    };
    if index >= template.roots.len() {
        return Err(ErrorKind::UnknownPath);
    }
    instantiate_root(table, t, ROOT_HANDLE, &template.roots[index], index, ops);
    let mut root_path: Vec<usize> = Vec::new();
    root_path.push(index);
    assert(root_path@ =~= seq![index]);
    match table.handle_at(t, &root_path) {
        None => Err(ErrorKind::UnknownPath),
        Some(handle) => {
            stack.push(handle);
            *scope = Some((t, index));
            Ok(())
        },
    }
}

/// Carries out `CreatePlaceholder` and `CreateTextNode`.
fn do_create(
    table: &mut NodeTable,
    stack: &mut Vec<usize>,
    ops: &mut Vec<BackendOp>,
    id: u64,
    blueprint: Blueprint,
    text: Option<&String>,
    Ghost(bindings): Ghost<Seq<ListenerView>>,
    Ghost(scope): Ghost<Option<(usize, usize)>>,
) -> (done: Result<(), ErrorKind>)
    requires
        old(table).wf(),
    ensures
        match create_node(
            MachineView {
                slots: old(table)@,
                bindings,
                stack: old(stack)@,
                scope,
                ops: op_views(old(ops)@),
            },
            id,
            blueprint,
            match text {
                Some(value) => Some(value@),
                None => None,
            },
        ) {
            Ok(m) => done is Ok && m == (MachineView {
                slots: final(table)@,
                bindings,
                stack: final(stack)@,
                scope,
                ops: op_views(final(ops)@),
            }),
            Err(kind) => done == Err::<(), ErrorKind>(kind),
        },
        final(table).wf(),
{
    let ghost before = op_views(ops@);
    match table.create(id, blueprint) {
        Err(kind) => Err(kind),
        Ok(handle) => {
            emit(ops, BackendOp::CreateWidget { handle, blueprint, parent: ROOT_HANDLE });
            let ghost made = seq![OpView::CreateWidget { handle, blueprint, parent: ROOT_HANDLE }];
            match text {
                Some(value) => {
                    emit(ops, BackendOp::SetText { handle, value: value.clone() });
                    assert(op_views(ops@) =~= before + made + seq![
                        OpView::SetText { handle, value: value@ },
                    ]);
                },
                None => {
                    assert(op_views(ops@) =~= before + made + Seq::<OpView>::empty());
                },
            }
            stack.push(handle);
            Ok(())
        },
    }
}

/// Carries out `AssignId` and `HydrateText`.
fn do_assign(
    table: &mut NodeTable,
    scope: &Option<(usize, usize)>,
    ops: &mut Vec<BackendOp>,
    path: &Vec<usize>,
    id: u64,
    text: Option<&String>,
    Ghost(bindings): Ghost<Seq<ListenerView>>,
    Ghost(stack): Ghost<Seq<usize>>,
) -> (done: Result<(), ErrorKind>)
    requires
        old(table).wf(),
    ensures
        match assign_node(
            MachineView {
                slots: old(table)@,
                bindings,
                stack,
                scope: *scope,
                ops: op_views(old(ops)@),
            },
            path@,
            id,
            match text {
                Some(value) => Some(value@),
                None => None,
            },
        ) {
            Ok(m) => done is Ok && m == (MachineView {
                slots: final(table)@,
                bindings,
                stack,
                scope: *scope,
                ops: op_views(final(ops)@),
            }),
            Err(kind) => done == Err::<(), ErrorKind>(kind),
        },
        final(table).wf(),
{
    let ghost before = op_views(ops@);
    let (template, root) = match scope {
        Some(loaded) => *loaded,
        None => {
            return Err(ErrorKind::UnknownPath);
        },
    };
    let full = normalized(root, path);
    match table.assign_id(template, &full, id) {
        Err(kind) => Err(kind),
        Ok(handle) => {
            match text {
                Some(value) => {
                    emit(ops, BackendOp::SetText { handle, value: value.clone() });
                    assert(op_views(ops@) =~= before + seq![
                        OpView::SetText { handle, value: value@ },
                    ]);
                },
                None => {
                    assert(op_views(ops@) =~= before + Seq::<OpView>::empty());
                },
            }
            Ok(())
        },
    }
}

/// Carries out what replaces the widget `handle`, once it is found.
fn do_replace(
    table: &mut NodeTable,
    events: &mut EventRegistry,
    stack: &mut Vec<usize>,
    ops: &mut Vec<BackendOp>,
    handle: usize,
    count: usize,
    Ghost(scope): Ghost<Option<(usize, usize)>>,
)
    requires
        old(table).wf(),
        old(events).wf(),
        handle < old(table)@.len(),
        old(table)@[handle as int] is Some,
        count <= old(stack).len(),
    ensures
        replaced(
            MachineView {
                slots: old(table)@,
                bindings: old(events)@,
                stack: old(stack)@,
                scope,
                ops: op_views(old(ops)@),
            },
            handle as int,
            count,
        ) == (MachineView {
            slots: final(table)@,
            bindings: final(events)@,
            stack: final(stack)@,
            scope,
            ops: op_views(final(ops)@),
        }),
        final(table).wf(),
        final(events).wf(),
{
    let children = pop_children(stack, count);
    emit(ops, BackendOp::AttachChildren { target: handle, children, placement: Placement::Before });
    emit(ops, BackendOp::Detach { handle });
    table.release(handle, events);
}

/// Carries out `SetText`.
fn do_set_text(
    table: &NodeTable,
    ops: &mut Vec<BackendOp>,
    id: u64,
    value: &String,
    Ghost(m): Ghost<MachineView>,
) -> (done: Result<(), ErrorKind>)
    requires
        table.wf(),
        m.slots == table@,
        m.ops == op_views(old(ops)@),
    ensures
        match write_node(m, id, text_op(value@)) {
            Ok(after) => done is Ok && after == (MachineView { ops: op_views(final(ops)@), ..m }),
            Err(kind) => done == Err::<(), ErrorKind>(kind),
        },
{
    let ghost before = op_views(ops@);
    match bound_handle(table, id) {
        Err(kind) => Err(kind),
        Ok(handle) => {
            emit(ops, BackendOp::SetText { handle, value: value.clone() });
            assert(op_views(ops@) =~= before + text_op(value@)(handle));
            Ok(())
        },
    }
}

/// Carries out `SetAttribute`.
fn do_set_attribute(
    table: &NodeTable,
    ops: &mut Vec<BackendOp>,
    id: u64,
    name: &String,
    value: &String,
    Ghost(m): Ghost<MachineView>,
) -> (done: Result<(), ErrorKind>)
    requires
        table.wf(),
        m.slots == table@,
        m.ops == op_views(old(ops)@),
    ensures
        match write_node(m, id, attribute_ops(name@, value@)) {
            Ok(after) => done is Ok && after == (MachineView { ops: op_views(final(ops)@), ..m }),
            Err(kind) => done == Err::<(), ErrorKind>(kind),
        },
{
    let ghost before = op_views(ops@);
    match bound_handle(table, id) {
        Err(kind) => Err(kind),
        Ok(handle) => {
            let translation = translate(name.as_str(), value.as_str());
            push_property_ops(ops, handle, &translation.writes);
            assert(op_views(ops@) =~= before + attribute_ops(name@, value@)(handle));
            Ok(())
        },
    }
}

/// Carries out `NewEventListener`.
fn do_listen(
    table: &NodeTable,
    events: &mut EventRegistry,
    name: &String,
    id: u64,
    Ghost(m): Ghost<MachineView>,
) -> (done: Result<(), ErrorKind>)
    requires
        table.wf(),
        old(events).wf(),
        m.slots == table@,
        m.bindings == old(events)@,
    ensures
        match listen(m, name@, id) {
            Ok(after) => done is Ok && after == (MachineView { bindings: final(events)@, ..m }),
            Err(kind) => done == Err::<(), ErrorKind>(kind),
        },
        final(events).wf(),
{
    match bound_handle(table, id) {
        Err(kind) => Err(kind),
        Ok(handle) => {
            events.register(DioxusListener { name: name.clone(), handle, id });
            Ok(())
        },
    }
}

/// Carries out `RemoveEventListener`.
fn do_unlisten(
    table: &NodeTable,
    events: &mut EventRegistry,
    name: &String,
    id: u64,
    Ghost(m): Ghost<MachineView>,
) -> (done: Result<(), ErrorKind>)
    requires
        table.wf(),
        old(events).wf(),
        m.slots == table@,
        m.bindings == old(events)@,
    ensures
        match unlisten(m, name@, id) {
            Ok(after) => done is Ok && after == (MachineView { bindings: final(events)@, ..m }),
            Err(kind) => done == Err::<(), ErrorKind>(kind),
        },
        final(events).wf(),
{
    match bound_handle(table, id) {
        Err(kind) => Err(kind),
        Ok(handle) => {
            events.unregister(name.as_str(), handle);
            Ok(())
        },
    }
}

/// Carries out `ReplaceWith`.
fn do_replace_with(
    table: &mut NodeTable,
    events: &mut EventRegistry,
    stack: &mut Vec<usize>,
    ops: &mut Vec<BackendOp>,
    id: u64,
    count: usize,
    Ghost(scope): Ghost<Option<(usize, usize)>>,
) -> (done: Result<(), ErrorKind>)
    requires
        old(table).wf(),
        old(events).wf(),
    ensures
        match replace_with(
            MachineView {
                slots: old(table)@,
                bindings: old(events)@,
                stack: old(stack)@,
                scope,
                ops: op_views(old(ops)@),
            },
            id,
            count,
        ) {
            Ok(m) => done is Ok && m == (MachineView {
                slots: final(table)@,
                bindings: final(events)@,
                stack: final(stack)@,
                scope,
                ops: op_views(final(ops)@),
            }),
            Err(kind) => done == Err::<(), ErrorKind>(kind),
        },
        final(table).wf(),
        final(events).wf(),
{
    if count > stack.len() {
        return Err(ErrorKind::StackUnderflow);
    }
    match bound_handle(table, id) {
        Err(kind) => Err(kind),
        Ok(handle) => {
            proof {
                lemma_index_in_range(table@);
            }
            do_replace(table, events, stack, ops, handle, count, Ghost(scope));
            Ok(())
        },
    }
}

/// Carries out `ReplacePlaceholder`.
fn do_replace_placeholder(
    table: &mut NodeTable,
    events: &mut EventRegistry,
    stack: &mut Vec<usize>,
    scope: &Option<(usize, usize)>,
    ops: &mut Vec<BackendOp>,
    path: &Vec<usize>,
    count: usize,
) -> (done: Result<(), ErrorKind>)
    requires
        old(table).wf(),
        old(events).wf(),
    ensures
        match replace_placeholder(
            MachineView {
                slots: old(table)@,
                bindings: old(events)@,
                stack: old(stack)@,
                scope: *scope,
                ops: op_views(old(ops)@),
            },
            path@,
            count,
        ) {
            Ok(m) => done is Ok && m == (MachineView {
                slots: final(table)@,
                bindings: final(events)@,
                stack: final(stack)@,
                scope: *scope,
                ops: op_views(final(ops)@),
            }),
            Err(kind) => done == Err::<(), ErrorKind>(kind),
        },
        final(table).wf(),
        final(events).wf(),
{
    if count > stack.len() {
        return Err(ErrorKind::StackUnderflow);
    }
    let (template, root) = match scope {
        Some(loaded) => *loaded,
        None => {
            return Err(ErrorKind::UnknownPath);
        },
    };
    let full = normalized(root, path);
    let found = match table.lookup_by_path(template, &full) {
        Ok(record) => Some(record.handle),
        Err(_) => None,
    };
    match found {
        None => Err(ErrorKind::UnknownPath),
        Some(handle) => {
            proof {
                lemma_index_in_range(table@);
            }
            do_replace(table, events, stack, ops, handle, count, Ghost(*scope));
            Ok(())
        },
    }
}

/// Carries out `Remove`.
fn do_remove(
    table: &mut NodeTable,
    events: &mut EventRegistry,
    ops: &mut Vec<BackendOp>,
    id: u64,
    Ghost(stack): Ghost<Seq<usize>>,
    Ghost(scope): Ghost<Option<(usize, usize)>>,
) -> (done: Result<(), ErrorKind>)
    requires
        old(table).wf(),
        old(events).wf(),
    ensures
        match remove_node(
            MachineView {
                slots: old(table)@,
                bindings: old(events)@,
                stack,
                scope,
                ops: op_views(old(ops)@),
            },
            id,
        ) {
            Ok(m) => done is Ok && m == (MachineView {
                slots: final(table)@,
                bindings: final(events)@,
                stack,
                scope,
                ops: op_views(final(ops)@),
            }),
            Err(kind) => done == Err::<(), ErrorKind>(kind),
        },
        final(table).wf(),
        final(events).wf(),
{
    match table.remove(id, events) {
        Err(kind) => Err(kind),
        Ok(handle) => {
            emit(ops, BackendOp::Detach { handle });
            Ok(())
        },
    }
}

/// Carries out `PushRoot`.
fn do_push_root(table: &NodeTable, stack: &mut Vec<usize>, id: u64, Ghost(m): Ghost<MachineView>) -> (done:
    Result<(), ErrorKind>)
    requires
        table.wf(),
        m.slots == table@,
        m.stack == old(stack)@,
    ensures
        match push_root(m, id) {
            Ok(after) => done is Ok && after == (MachineView { stack: final(stack)@, ..m }),
            Err(kind) => done == Err::<(), ErrorKind>(kind),
        },
{
    match bound_handle(table, id) {
        Err(kind) => Err(kind),
        Ok(handle) => {
            stack.push(handle);
            Ok(())
        },
    }
}

/// Carries out one instruction.
fn execute(
    registry: &TemplateRegistry,
    table: &mut NodeTable,
    events: &mut EventRegistry,
    stack: &mut Vec<usize>,
    scope: &mut Option<(usize, usize)>,
    ops: &mut Vec<BackendOp>,
    instruction: &Instruction,
) -> (done: Result<(), ErrorKind>)
    requires
        registry.wf(),
        old(table).wf(),
        old(events).wf(),
    ensures
        match step(registry@, machine_view(old(table), old(events), old(stack), old(scope), old(ops)), *instruction) {
            Ok(m) => done is Ok && m == machine_view(
                final(table),
                final(events),
                final(stack),
                final(scope),
                final(ops),
            ),
            Err(kind) => done == Err::<(), ErrorKind>(kind),
        },
        final(table).wf(),
        final(events).wf(),
{
    let ghost m = machine_view(table, events, stack, scope, ops);
    match instruction {
        Instruction::LoadTemplate { name, index } => do_load(
            registry,
            table,
            stack,
            scope,
            ops,
            name,
            *index,
            Ghost(events@),
        ),
        Instruction::CreatePlaceholder { id } => do_create(
            table,
            stack,
            ops,
            *id,
            Blueprint::View,
            None,
            Ghost(events@),
            Ghost(*scope),
        ),
        Instruction::CreateTextNode { value, id } => do_create(
            table,
            stack,
            ops,
            *id,
            Blueprint::Label,
            Some(value),
            Ghost(events@),
            Ghost(*scope),
        ),
        Instruction::AssignId { path, id } => do_assign(
            table,
            scope,
            ops,
            path,
            *id,
            None,
            Ghost(events@),
            Ghost(stack@),
        ),
        Instruction::HydrateText { path, value, id } => do_assign(
            table,
            scope,
            ops,
            path,
            *id,
            Some(value),
            Ghost(events@),
            Ghost(stack@),
        ),
        Instruction::SetText { id, value } => do_set_text(table, ops, *id, value, Ghost(m)),
        Instruction::SetAttribute { id, name, value, ns } => do_set_attribute(
            table,
            ops,
            *id,
            name,
            value,
            Ghost(m),
        ),
        Instruction::NewEventListener { name, id } => do_listen(table, events, name, *id, Ghost(m)),
        Instruction::RemoveEventListener { name, id } => do_unlisten(
            table,
            events,
            name,
            *id,
            Ghost(m),
        ),
        Instruction::AppendChildren { id, m: count } => do_attach(
            table,
            stack,
            ops,
            *id,
            *count,
            Placement::Inside,
            Ghost(events@),
            Ghost(*scope),
        ),
        Instruction::InsertBefore { id, m: count } => do_attach(
            table,
            stack,
            ops,
            *id,
            *count,
            Placement::Before,
            Ghost(events@),
            Ghost(*scope),
        ),
        Instruction::InsertAfter { id, m: count } => do_attach(
            table,
            stack,
            ops,
            *id,
            *count,
            Placement::After,
            Ghost(events@),
            Ghost(*scope),
        ),
        Instruction::ReplaceWith { id, m: count } => do_replace_with(
            table,
            events,
            stack,
            ops,
            *id,
            *count,
            Ghost(*scope),
        ),
        Instruction::ReplacePlaceholder { path, m: count } => do_replace_placeholder(
            table,
            events,
            stack,
            scope,
            ops,
            path,
            *count,
        ),
        Instruction::Remove { id } => do_remove(table, events, ops, *id, Ghost(stack@), Ghost(*scope)),
        Instruction::PushRoot { id } => do_push_root(table, stack, *id, Ghost(m)),
    }
}

/// Carries out `AppendChildren`, `InsertBefore` and `InsertAfter`.
fn do_attach(
    table: &NodeTable,
    stack: &mut Vec<usize>,
    ops: &mut Vec<BackendOp>,
    id: u64,
    count: usize,
    placement: Placement,
    Ghost(bindings): Ghost<Seq<ListenerView>>,
    Ghost(scope): Ghost<Option<(usize, usize)>>,
) -> (done: Result<(), ErrorKind>)
    requires
        table.wf(),
    ensures
        match attach(
            MachineView {
                slots: table@,
                bindings,
                stack: old(stack)@,
                scope,
                ops: op_views(old(ops)@),
            },
            id,
            count,
            placement,
        ) {
            Ok(m) => done is Ok && m == (MachineView {
                slots: table@,
                bindings,
                stack: final(stack)@,
                scope,
                ops: op_views(final(ops)@),
            }),
            Err(kind) => done == Err::<(), ErrorKind>(kind),
        },
{
    if count > stack.len() {
        return Err(ErrorKind::StackUnderflow);
    }
    match bound_handle(table, id) {
        Err(kind) => Err(kind),
        Ok(handle) => {
            let children = pop_children(stack, count);
            emit(ops, BackendOp::AttachChildren { target: handle, children, placement });
            Ok(())
        },
    }
}

/// Interprets a batch of instructions, in order, against the node table
/// and the event registry, and gives the operations that the retained
/// tree has to carry out.
///
/// A batch counts whole or not at all. Where an instruction fails, the
/// batch is given up: the table and the registry are as they were
/// before it, no operation is asked for, and the error names the
/// instruction and the violation. The operand stack lives for one
/// batch only.
pub fn interpret(
    registry: &TemplateRegistry,
    table: &mut NodeTable,
    events: &mut EventRegistry,
    batch: &Vec<Instruction>,
) -> (outcome: Result<Vec<BackendOp>, BatchError>)
    requires
        registry.wf(),
        old(table).wf(),
        old(events).wf(),
    ensures
        match run(registry@, start(old(table)@, old(events)@), batch@, batch@.len() as int) {
            Ok(m) => outcome is Ok && op_views(outcome->Ok_0@) == m.ops && final(table)@ == m.slots
                && final(events)@ == m.bindings,
            Err(e) => outcome == Err::<Vec<BackendOp>, BatchError>(e) && final(table)@ == old(
                table,
            )@ && final(events)@ == old(events)@,
        },
        final(table).wf(),
        final(events).wf(),
{
    let mut work_table = table.duplicate();
    let mut work_events = events.duplicate();
    let mut stack: Vec<usize> = Vec::new();
    let mut scope: Option<(usize, usize)> = None;
    let mut ops: Vec<BackendOp> = Vec::new();
    let ghost first = start(table@, events@);
    assert(op_views(ops@) =~= Seq::<OpView>::empty());
    let mut i: usize = 0;
    while i < batch.len()
        invariant
            i <= batch.len(),
            registry.wf(),
            work_table.wf(),
            work_events.wf(),
            table.wf(),
            events.wf(),
            table@ == old(table)@,
            events@ == old(events)@,
            first == start(table@, events@),
            run(registry@, first, batch@, i as int) == Ok::<MachineView, BatchError>(
                machine_view(&work_table, &work_events, &stack, &scope, &ops),
            ),
        decreases batch.len() - i,
    {
        match execute(
            registry,
            &mut work_table,
            &mut work_events,
            &mut stack,
            &mut scope,
            &mut ops,
            &batch[i],
        ) {
            Ok(()) => {},
            Err(kind) => {
                proof {
                    lemma_run_stays_failed(
                        registry@,
                        first,
                        batch@,
                        i + 1,
                        batch@.len() as int,
                    );
                }
                return Err(BatchError { index: i, kind });
            },
        }
        i += 1;
    }
    *table = work_table;
    *events = work_events;
    Ok(ops)
}

} // verus!
