//! What the bridge asks of the retained widget tree.
//!
//! The bridge touches no widget itself. It answers every batch with a
//! list of operations, and whoever owns the native tree carries them
//! out in order. Widgets are named by handle; the handle of a new
//! widget is chosen here and stated in the operation that makes it.

use vstd::prelude::*;
use crate::style::{attribute_writes, translate, PropertyWrite};
use crate::template::{Blueprint, PlanView};

verus! {

/// Where widgets go relative to the widget that an attachment names.
#[derive(Clone, Copy, Debug, PartialEq, Eq, Structural)]
pub enum Placement {
    /// Inside it, after the children it already has.
    Inside,
    /// Next to it in its parent, just before it.
    Before,
    /// Next to it in its parent, just after it.
    After,
}

/// One operation on the retained widget tree.
#[derive(Clone, Debug, PartialEq, Eq)]
pub enum BackendOp {
    /// Detach everything that sits under the root view.
    ClearRoot,
    /// Make a widget of kind `blueprint` under `parent` and call it `handle`.
    CreateWidget { handle: usize, blueprint: Blueprint, parent: usize },
    /// Set the text of a widget.
    SetText { handle: usize, value: String },
    /// Write a property of a widget.
    SetProperty { handle: usize, write: PropertyWrite },
    /// Move `children`, in the order given, to where `placement` says
    /// relative to `target`.
    AttachChildren { target: usize, children: Vec<usize>, placement: Placement },
    /// Detach a widget from its parent and tear it down.
    Detach { handle: usize },
    /// Draw the tree again.
    RequestRedraw,
}

/// What a `BackendOp` holds, as plain values.
pub enum OpView {
    ClearRoot,
    CreateWidget { handle: usize, blueprint: Blueprint, parent: usize },
    SetText { handle: usize, value: Seq<char> },
    SetProperty { handle: usize, write: PropertyWrite },
    AttachChildren { target: usize, children: Seq<usize>, placement: Placement },
    Detach { handle: usize },
    RequestRedraw,
}

impl View for BackendOp {
    type V = OpView;

    open spec fn view(&self) -> OpView {
        match self {
            BackendOp::ClearRoot => OpView::ClearRoot,
            BackendOp::CreateWidget { handle, blueprint, parent } => OpView::CreateWidget {
                handle: *handle,
                blueprint: *blueprint,
                parent: *parent,
            },
            BackendOp::SetText { handle, value } => OpView::SetText {
                handle: *handle,
                value: value@,
            },
            BackendOp::SetProperty { handle, write } => OpView::SetProperty {
                handle: *handle,
                write: *write,
            },
            BackendOp::AttachChildren { target, children, placement } => OpView::AttachChildren {
                target: *target,
                children: children@,
                placement: *placement,
            },
            BackendOp::Detach { handle } => OpView::Detach { handle: *handle },
            BackendOp::RequestRedraw => OpView::RequestRedraw,
        }
    }
}

/// The views of a sequence of operations.
pub open spec fn op_views(ops: Seq<BackendOp>) -> Seq<OpView> {
    ops.map_values(|op: BackendOp| op@)
}

/// The writes `writes`, each as an operation on the widget `handle`.
pub open spec fn property_ops(handle: usize, writes: Seq<PropertyWrite>) -> Seq<OpView> {
    writes.map_values(|write: PropertyWrite| OpView::SetProperty { handle, write })
}

/// The operations that make the widget of `plan` under `parent`: the
/// widget itself, its text where it carries text, and its properties.
pub open spec fn widget_ops(handle: usize, parent: usize, plan: PlanView) -> Seq<OpView> {
    let made = seq![OpView::CreateWidget { handle, blueprint: plan.blueprint, parent }];
    let text = if plan.blueprint.text_bearing() {
        seq![OpView::SetText { handle, value: plan.text }]
    } else {
        Seq::empty()
    };
    made + text + property_ops(handle, plan.writes)
}

pub(crate) proof fn lemma_op_views_push(ops: Seq<BackendOp>, op: BackendOp)
    ensures
        op_views(ops.push(op)) == op_views(ops).push(op@),
{
    assert(op_views(ops.push(op)) =~= op_views(ops).push(op@));
}

/// Applies an attribute to a widget: gives the property writes that the
/// attribute stands for, each as an operation on the widget `handle`.
/// An attribute that is not understood, and a declaration that is
/// skipped, give nothing.
pub fn apply(handle: usize, name: &str, value: &str) -> (ops: Vec<BackendOp>)
    ensures
        op_views(ops@) == property_ops(handle, attribute_writes(name@, value@)),
{
    let translation = translate(name, value);
    let mut ops: Vec<BackendOp> = Vec::new();
    assert(op_views(ops@) =~= Seq::<OpView>::empty());
    push_property_ops(&mut ops, handle, &translation.writes);
    assert(op_views(ops@) =~= property_ops(handle, attribute_writes(name@, value@)));
    ops
}

/// Adds to `ops` the operations that write `writes` to the widget `handle`.
pub(crate) fn push_property_ops(ops: &mut Vec<BackendOp>, handle: usize, writes: &Vec<PropertyWrite>)
    ensures
        op_views(final(ops)@) == op_views(old(ops)@) + property_ops(handle, writes@),
{
    let ghost start = op_views(ops@);
    let mut i: usize = 0;
    assert(start + property_ops(handle, writes@.take(0)) =~= start);
    while i < writes.len()
        invariant
            i <= writes.len(),
            op_views(ops@) == start + property_ops(handle, writes@.take(i as int)),
        decreases writes.len() - i,
    {
        let op = BackendOp::SetProperty { handle, write: writes[i] };
        proof {
            lemma_op_views_push(ops@, op);
            assert(start + property_ops(handle, writes@.take(i + 1)) =~= (start + property_ops(
                handle,
                writes@.take(i as int),
            )).push(op@));
        }
        ops.push(op);
        i += 1;
    }
    assert(writes@.take(writes.len() as int) =~= writes@);
}

} // verus!
