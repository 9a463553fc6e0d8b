//! The mutation instructions: what the virtual side says has changed.

use vstd::prelude::*;

verus! {

/// One instruction of a mutation batch.
///
/// A path in an instruction leaves out the index of the template root
/// it starts from: the root is the one that the batch loaded last.
#[derive(Clone, Debug, PartialEq, Eq)]
pub enum Instruction {
    /// Instantiate root `index` of the template `name` and push its widget.
    LoadTemplate { name: String, index: usize },
    /// Make an empty container bound to `id` and push it.
    CreatePlaceholder { id: u64 },
    /// Make a text widget that shows `value`, bound to `id`, and push it.
    CreateTextNode { value: String, id: u64 },
    /// Bind `id` to the record that `path` addresses.
    AssignId { path: Vec<usize>, id: u64 },
    /// Bind `id` to the text-bearing record that `path` addresses and
    /// set its text to `value`.
    HydrateText { path: Vec<usize>, value: String, id: u64 },
    /// Set the text of the widget bound to `id`.
    SetText { id: u64, value: String },
    /// Translate an attribute and write it to the widget bound to `id`.
    SetAttribute { id: u64, name: String, value: String, ns: Option<String> },
    /// Listen for `name` events on the widget bound to `id`.
    NewEventListener { name: String, id: u64 },
    /// Stop listening for `name` events on the widget bound to `id`.
    RemoveEventListener { name: String, id: u64 },
    /// Pop `m` widgets and put them inside the widget bound to `id`.
    AppendChildren { id: u64, m: usize },
    /// Pop `m` widgets, put them where the widget bound to `id` is, and
    /// remove that widget.
    ReplaceWith { id: u64, m: usize },
    /// As `ReplaceWith`, for the widget that `path` addresses.
    ReplacePlaceholder { path: Vec<usize>, m: usize },
    /// Pop `m` widgets and put them just before the widget bound to `id`.
    InsertBefore { id: u64, m: usize },
    /// Pop `m` widgets and put them just after the widget bound to `id`.
    InsertAfter { id: u64, m: usize },
    /// Remove the widget bound to `id`.
    Remove { id: u64 },
    /// Push the widget bound to `id`.
    PushRoot { id: u64 },
}

impl Instruction {
    /// The name of the instruction, for diagnostics.
    pub fn name(&self) -> (s: &'static str)
        ensures
            s@ == self.spec_name(),
    {
        match self {
            Instruction::LoadTemplate { .. } => "LoadTemplate",
            Instruction::CreatePlaceholder { .. } => "CreatePlaceholder",
            Instruction::CreateTextNode { .. } => "CreateTextNode",
            Instruction::AssignId { .. } => "AssignId",
            Instruction::HydrateText { .. } => "HydrateText",
            Instruction::SetText { .. } => "SetText",
            Instruction::SetAttribute { .. } => "SetAttribute",
            Instruction::NewEventListener { .. } => "NewEventListener",
            Instruction::RemoveEventListener { .. } => "RemoveEventListener",
            Instruction::AppendChildren { .. } => "AppendChildren",
            Instruction::ReplaceWith { .. } => "ReplaceWith",
            Instruction::ReplacePlaceholder { .. } => "ReplacePlaceholder",
            Instruction::InsertBefore { .. } => "InsertBefore",
            Instruction::InsertAfter { .. } => "InsertAfter",
            Instruction::Remove { .. } => "Remove",
            Instruction::PushRoot { .. } => "PushRoot",
        }
    }

    /// The name of the instruction.
    pub open spec fn spec_name(&self) -> Seq<char> {
        match self {
            Instruction::LoadTemplate { .. } => "LoadTemplate"@,
            Instruction::CreatePlaceholder { .. } => "CreatePlaceholder"@,
            Instruction::CreateTextNode { .. } => "CreateTextNode"@,
            Instruction::AssignId { .. } => "AssignId"@,
            Instruction::HydrateText { .. } => "HydrateText"@,
            Instruction::SetText { .. } => "SetText"@,
            Instruction::SetAttribute { .. } => "SetAttribute"@,
            Instruction::NewEventListener { .. } => "NewEventListener"@,
            Instruction::RemoveEventListener { .. } => "RemoveEventListener"@,
            Instruction::AppendChildren { .. } => "AppendChildren"@,
            Instruction::ReplaceWith { .. } => "ReplaceWith"@,
            Instruction::ReplacePlaceholder { .. } => "ReplacePlaceholder"@,
            Instruction::InsertBefore { .. } => "InsertBefore"@,
            Instruction::InsertAfter { .. } => "InsertAfter"@,
            Instruction::Remove { .. } => "Remove"@,
            Instruction::PushRoot { .. } => "PushRoot"@,
        }
    }

    /// How many references the instruction pushes onto the operand stack.
    pub open spec fn pushes(&self) -> nat {
        match self {
            Instruction::LoadTemplate { .. } => 1,
            Instruction::CreatePlaceholder { .. } => 1,
            Instruction::CreateTextNode { .. } => 1,
            Instruction::PushRoot { .. } => 1,
            _ => 0,
        }
    }

    /// How many references the instruction pops off the operand stack.
    pub open spec fn pops(&self) -> nat {
        match self {
            Instruction::AppendChildren { m, .. } => *m as nat,
            Instruction::ReplaceWith { m, .. } => *m as nat,
            Instruction::ReplacePlaceholder { m, .. } => *m as nat,
            Instruction::InsertBefore { m, .. } => *m as nat,
            Instruction::InsertAfter { m, .. } => *m as nat,
            _ => 0,
        }
    }

    /// Whether the instruction consumes references.
    pub open spec fn consumes(&self) -> bool {
        match self {
            Instruction::AppendChildren { .. } => true,
            Instruction::ReplaceWith { .. } => true,
            Instruction::ReplacePlaceholder { .. } => true,
            Instruction::InsertBefore { .. } => true,
            Instruction::InsertAfter { .. } => true,
            _ => false,
        }
    }
}

} // verus!
