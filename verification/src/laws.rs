//! What holds of the bridge whatever it is given: the laws that its
//! users may rely on, each proved from the meaning of the instructions.

use vstd::prelude::*;
use crate::backend::OpView;
use crate::driver::{patched, DriverView};
use crate::error::{BatchError, ErrorKind};
use crate::events::{apart_from, lemma_filter_keeps_wf};
use crate::instruction::Instruction;
use crate::machine::{lemma_run_wf, machine_wf, normalize, run, step, MachineView};
use crate::registry::{bound_plan, instantiated, lemma_bound_plan_wf, lemma_instantiated_wf};
use crate::table::{
    bind_outcome, id_at, id_index, key_at, lemma_index_in_range, lemma_remove_wf, lemma_vacancy,
    locate, path_index, slots_wf, vacancy, RecordView,
};
use crate::template::{
    lemma_node_plan_distinct, lemma_node_plan_extends, node_plan, paths_distinct, Blueprint,
    PlanView, Template, TemplateNode,
};

verus! {

/// Path uniqueness, in the plan: instantiating a template root never
/// asks for two widgets at one structural path.
pub proof fn law_planned_paths_unique(root: TemplateNode, index: usize)
    ensures
        paths_distinct(node_plan(root, seq![index])),
{
    lemma_node_plan_distinct(root, seq![index]);
}

/// Path uniqueness, in the table: after a template is instantiated no
/// two node records share a template and path, whatever the table held
/// before.
pub proof fn law_instantiation_keeps_paths_unique(
    slots: Seq<Option<RecordView>>,
    template: usize,
    root_view: usize,
    roots: Seq<TemplateNode>,
)
    requires
        slots_wf(slots),
    ensures
        slots_wf(instantiated(slots, template, root_view, roots, roots.len() as int).0),
        forall|i: int, j: int|
            i != j && (#[trigger] key_at(
                instantiated(slots, template, root_view, roots, roots.len() as int).0,
                i,
            )) is Some ==> key_at(
                instantiated(slots, template, root_view, roots, roots.len() as int).0,
                i,
            ) != #[trigger] key_at(
                instantiated(slots, template, root_view, roots, roots.len() as int).0,
                j,
            ),
{
    lemma_instantiated_wf(slots, template, root_view, roots, roots.len() as int);
}

/// Binding a path leaves every record that was there under its path.
proof fn lemma_bind_keeps_paths(
    slots: Seq<Option<RecordView>>,
    template: usize,
    path: Seq<usize>,
    blueprint: Blueprint,
    other_template: usize,
    other: Seq<usize>,
)
    requires
        slots_wf(slots),
        path_index(slots, other_template, other) is Some,
    ensures
        path_index(bind_outcome(slots, template, path, blueprint).0, other_template, other) is Some,
{
    lemma_index_in_range(slots);
    let i = path_index(slots, other_template, other)->0;
    if path_index(slots, template, path) is None {
        lemma_vacancy(slots, 1);
        let h = vacancy(slots, 1);
        let after = bind_outcome(slots, template, path, blueprint).0;
        assert(key_at(slots, i) == Some((other_template, other)));
        assert(i != h);
        assert(key_at(after, i) == Some((other_template, other)));
    }
}

/// Every widget that a template root asks for has its record once the
/// root is instantiated: each planned path is bound, and as no two
/// planned paths are the same, each to a record of its own.
pub proof fn law_planned_paths_are_bound(
    slots: Seq<Option<RecordView>>,
    template: usize,
    root_view: usize,
    root: TemplateNode,
    index: usize,
    k: int,
)
    requires
        slots_wf(slots),
        0 <= k < node_plan(root, seq![index]).len(),
    ensures
        path_index(
            bound_plan(
                slots,
                template,
                root_view,
                node_plan(root, seq![index]),
                node_plan(root, seq![index]).len() as int,
            ).0,
            template,
            node_plan(root, seq![index])[k].path,
        ) is Some,
{
    let plan = node_plan(root, seq![index]);
    lemma_node_plan_extends(root, seq![index]);
    assert(plan[k].path.len() >= 1);
    lemma_bound_plan_wf(slots, template, root_view, plan, k);
    let before = bound_plan(slots, template, root_view, plan, k).0;
    let after = bound_plan(slots, template, root_view, plan, k + 1).0;
    assert(after == bind_outcome(before, template, plan[k].path, plan[k].blueprint).0);
    if path_index(before, template, plan[k].path) is None {
        lemma_vacancy(before, 1);
        let h = vacancy(before, 1);
        assert(key_at(after, h) == Some((template, plan[k].path)));
    }
    lemma_later_binds_keep(slots, template, root_view, plan, k + 1, plan.len() as int, plan[k].path);
}

/// What is bound after `from` planned widgets is still bound after `to`.
proof fn lemma_later_binds_keep(
    slots: Seq<Option<RecordView>>,
    template: usize,
    root_view: usize,
    plan: Seq<PlanView>,
    from: int,
    to: int,
    other: Seq<usize>,
)
    requires
        slots_wf(slots),
        0 <= from <= to <= plan.len(),
        path_index(bound_plan(slots, template, root_view, plan, from).0, template, other) is Some,
    ensures
        path_index(bound_plan(slots, template, root_view, plan, to).0, template, other) is Some,
    decreases to - from,
{
    if from < to {
        lemma_later_binds_keep(slots, template, root_view, plan, from, to - 1, other);
        lemma_bound_plan_wf(slots, template, root_view, plan, to - 1);
        let before = bound_plan(slots, template, root_view, plan, to - 1).0;
        lemma_bind_keeps_paths(
            before,
            template,
            plan[to - 1].path,
            plan[to - 1].blueprint,
            template,
            other,
        );
    }
}

/// Id uniqueness: whatever instructions a batch holds, as far as it
/// runs no virtual id is bound to two node records.
pub proof fn law_ids_stay_unique(
    templates: Seq<Template>,
    m: MachineView,
    batch: Seq<Instruction>,
    n: int,
)
    requires
        machine_wf(m),
        run(templates, m, batch, n) is Ok,
    ensures
        machine_wf(run(templates, m, batch, n)->Ok_0),
        forall|i: int, j: int|
            i != j && (#[trigger] id_at(run(templates, m, batch, n)->Ok_0.slots, i)) is Some
                ==> id_at(run(templates, m, batch, n)->Ok_0.slots, i) != #[trigger] id_at(
                run(templates, m, batch, n)->Ok_0.slots,
                j,
            ),
{
    lemma_run_wf(templates, m, batch, n);
}

/// A second bind fails, for a new widget: `CreatePlaceholder` and
/// `CreateTextNode` with an id that a record answers to fail with
/// `DuplicateId`.
pub proof fn law_create_with_bound_id_fails(templates: Seq<Template>, m: MachineView, id: u64)
    requires
        id_index(m.slots, id) is Some,
    ensures
        step(templates, m, Instruction::CreatePlaceholder { id }) == Err::<MachineView, ErrorKind>(
            ErrorKind::DuplicateId,
        ),
        forall|value: String|
            (#[trigger] step(templates, m, Instruction::CreateTextNode { value, id })) == Err::<
                MachineView,
                ErrorKind,
            >(ErrorKind::DuplicateId),
{
}

/// A second bind fails, for a record that is there: `AssignId` and
/// `HydrateText` with an id that another record answers to fail with
/// `DuplicateId`.
pub proof fn law_assign_bound_id_fails(
    templates: Seq<Template>,
    m: MachineView,
    template: usize,
    root: usize,
    path: Vec<usize>,
    id: u64,
)
    requires
        machine_wf(m),
        m.scope == Some((template, root)),
        locate(m.slots, template, normalize(root, path@)) is Some,
        id_index(m.slots, id) is Some,
        id_index(m.slots, id) != locate(m.slots, template, normalize(root, path@)),
    ensures
        step(templates, m, Instruction::AssignId { path, id }) == Err::<MachineView, ErrorKind>(
            ErrorKind::DuplicateId,
        ),
        forall|value: String|
            (#[trigger] step(templates, m, Instruction::HydrateText { path, value, id })) == Err::<
                MachineView,
                ErrorKind,
            >(ErrorKind::DuplicateId),
{
    lemma_index_in_range(m.slots);
    let target = locate(m.slots, template, normalize(root, path@))->0;
    let holder = id_index(m.slots, id)->0;
    if m.slots[target]->0.id == Some(id) {
        assert(id_at(m.slots, target) == Some(id));
        assert(id_at(m.slots, holder) == Some(id));
    }
}

/// Under-supply: an instruction that pops more references than the
/// stack holds fails with `StackUnderflow`, whatever else is the matter
/// with it.
pub proof fn law_under_supply_fails(templates: Seq<Template>, m: MachineView, instruction: Instruction)
    requires
        instruction.pops() > m.stack.len(),
    ensures
        step(templates, m, instruction) == Err::<MachineView, ErrorKind>(ErrorKind::StackUnderflow),
{
}

/// An instruction that runs through leaves the stack with what it held,
/// plus what the instruction pushes, minus what it pops.
pub proof fn law_stack_effect(templates: Seq<Template>, m: MachineView, instruction: Instruction)
    requires
        step(templates, m, instruction) is Ok,
    ensures
        instruction.pops() <= m.stack.len(),
        step(templates, m, instruction)->Ok_0.stack.len() == m.stack.len() + instruction.pushes()
            - instruction.pops(),
{
}

/// How many references the first `n` instructions have pushed since the
/// last one of them that consumes.
pub open spec fn pending(batch: Seq<Instruction>, n: int) -> nat
    decreases n,
{
    if n <= 0 || n > batch.len() {
        0
    } else if batch[n - 1].consumes() {
        0
    } else {
        pending(batch, n - 1) + batch[n - 1].pushes()
    }
}

/// A batch is balanced where every consuming instruction pops exactly
/// the references pushed since the consuming instruction before it.
pub open spec fn balanced(batch: Seq<Instruction>) -> bool {
    forall|k: int|
        0 <= k < batch.len() && (#[trigger] batch[k]).consumes() ==> batch[k].pops() == pending(
            batch,
            k,
        )
}

/// Stack balance: in a balanced batch that starts on an empty stack,
/// the stack holds at every point just what was pushed since the last
/// consuming instruction, so each pop count is met exactly, and the
/// batch never fails with `StackUnderflow`.
pub proof fn law_balanced_batch(
    templates: Seq<Template>,
    m: MachineView,
    batch: Seq<Instruction>,
    n: int,
)
    requires
        balanced(batch),
        m.stack.len() == 0,
        0 <= n <= batch.len(),
    ensures
        match run(templates, m, batch, n) {
            Ok(after) => after.stack.len() == pending(batch, n),
            Err(e) => e.kind != ErrorKind::StackUnderflow,
        },
    decreases n,
{
    if n > 0 {
        law_balanced_batch(templates, m, batch, n - 1);
        if let Ok(before) = run(templates, m, batch, n - 1) {
            let instruction = batch[n - 1];
            if step(templates, before, instruction) is Ok {
                law_stack_effect(templates, before, instruction);
            }
        }
    }
}

/// Cascade on remove: once `Remove` has gone through for an id, no
/// record answers to the id, so that looking it up fails with
/// `UnboundId`, and no event binding goes to it.
pub proof fn law_remove_cascades(templates: Seq<Template>, m: MachineView, id: u64)
    requires
        machine_wf(m),
        step(templates, m, Instruction::Remove { id }) is Ok,
    ensures
        id_index(step(templates, m, Instruction::Remove { id })->Ok_0.slots, id) is None,
        forall|k: int|
            0 <= k < step(templates, m, Instruction::Remove { id })->Ok_0.bindings.len() ==> (
            #[trigger] step(templates, m, Instruction::Remove { id })->Ok_0.bindings[k]).id != id,
        forall|value: String|
            (#[trigger] step(
                templates,
                step(templates, m, Instruction::Remove { id })->Ok_0,
                Instruction::SetText { id, value },
            )) == Err::<MachineView, ErrorKind>(ErrorKind::UnboundId),
{
    lemma_index_in_range(m.slots);
    lemma_remove_wf(m.slots, id);
    let h = id_index(m.slots, id)->0;
    lemma_filter_keeps_wf(m.bindings, apart_from(h as usize, Some(id)));
}

/// An empty patch is no patch: it changes nothing and asks for nothing,
/// so that nothing is drawn again.
pub proof fn law_empty_patch_is_silent(d: DriverView)
    ensures
        patched(d, Seq::<Instruction>::empty()) == (
            d,
            Ok::<Seq<OpView>, BatchError>(Seq::empty()),
        ),
{
}

} // verus!
