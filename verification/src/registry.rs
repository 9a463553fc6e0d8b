//! The template registry: the templates that the virtual side has
//! announced, and their instantiation as native widgets.

use vstd::prelude::*;
use crate::backend::{
    lemma_op_views_push, op_views, push_property_ops, widget_ops, BackendOp, OpView,
};
use crate::table::{bind_outcome, lemma_bind_wf, path_index, slots_wf, NodeTable, RecordView};
use crate::template::{
    copy_path, node_plan, plan_node, plan_views, PlanView, Template, TemplateNode, WidgetPlan,
};
use crate::text::same_text;

verus! {

/// The place of the template called `name`, if it is registered.
pub open spec fn template_index(templates: Seq<Template>, name: Seq<char>) -> Option<int> {
    if exists|i: int| 0 <= i < templates.len() && (#[trigger] templates[i]).name@ == name {
        Some(choose|i: int| 0 <= i < templates.len() && (#[trigger] templates[i]).name@ == name)
    } else {
        None
    }
}

/// No two templates share a name.
pub open spec fn names_distinct(templates: Seq<Template>) -> bool {
    forall|i: int, j: int|
        0 <= i < j < templates.len() ==> (#[trigger] templates[i]).name@ != (
        #[trigger] templates[j]).name@
}

/// The handle of the widget under which the widget at `path` is made:
/// the record one step above it, or `root_view` for a template root.
pub open spec fn parent_of(
    slots: Seq<Option<RecordView>>,
    template: usize,
    path: Seq<usize>,
    root_view: usize,
) -> usize {
    if path.len() > 1 {
        match path_index(slots, template, path.drop_last()) {
            Some(i) => i as usize,
            None => root_view,
        }
    } else {
        root_view
    }
}

/// What binding one planned widget gives: the slots, and the operations
/// that make the widget where it was not there yet.
pub open spec fn bound_one(
    slots: Seq<Option<RecordView>>,
    template: usize,
    root_view: usize,
    plan: PlanView,
) -> (Seq<Option<RecordView>>, Seq<OpView>) {
    let (after, handle, created) = bind_outcome(slots, template, plan.path, plan.blueprint);
    if created {
        (after, widget_ops(handle as usize, parent_of(slots, template, plan.path, root_view), plan))
    } else {
        (after, Seq::empty())
    }
}

/// What binding the first `n` widgets of `plan` gives, one after the other.
pub open spec fn bound_plan(
    slots: Seq<Option<RecordView>>,
    template: usize,
    root_view: usize,
    plan: Seq<PlanView>,
    n: int,
) -> (Seq<Option<RecordView>>, Seq<OpView>)
    decreases n,
{
    if n <= 0 || n > plan.len() {
        (slots, Seq::empty())
    } else {
        let (before, ops) = bound_plan(slots, template, root_view, plan, n - 1);
        let (after, more) = bound_one(before, template, root_view, plan[n - 1]);
        (after, ops + more)
    }
}

/// What instantiating root `index` of a template gives: every widget
/// that the root and the nodes below it ask for is bound under its
/// path, parents first.
pub open spec fn instantiated_root(
    slots: Seq<Option<RecordView>>,
    template: usize,
    root_view: usize,
    root: TemplateNode,
    index: usize,
) -> (Seq<Option<RecordView>>, Seq<OpView>) {
    let plan = node_plan(root, seq![index]);
    bound_plan(slots, template, root_view, plan, plan.len() as int)
}

/// What instantiating the first `n` roots of a template gives.
pub open spec fn instantiated(
    slots: Seq<Option<RecordView>>,
    template: usize,
    root_view: usize,
    roots: Seq<TemplateNode>,
    n: int,
) -> (Seq<Option<RecordView>>, Seq<OpView>)
    decreases n,
{
    if n <= 0 || n > roots.len() {
        (slots, Seq::empty())
    } else {
        let (before, ops) = instantiated(slots, template, root_view, roots, n - 1);
        let (after, more) = instantiated_root(
            before,
            template,
            root_view,
            roots[n - 1],
            (n - 1) as usize,
        );
        (after, ops + more)
    }
}

/// Binding planned widgets keeps the invariant of the table: no path
/// and no id comes to stand twice.
pub proof fn lemma_bound_plan_wf(
    slots: Seq<Option<RecordView>>,
    template: usize,
    root_view: usize,
    plan: Seq<PlanView>,
    n: int,
)
    requires
        slots_wf(slots),
    ensures
        slots_wf(bound_plan(slots, template, root_view, plan, n).0),
        bound_plan(slots, template, root_view, plan, n).0.len() >= slots.len(),
    decreases n,
{
    if 0 < n <= plan.len() {
        lemma_bound_plan_wf(slots, template, root_view, plan, n - 1);
        let before = bound_plan(slots, template, root_view, plan, n - 1).0;
        lemma_bind_wf(before, template, plan[n - 1].path, plan[n - 1].blueprint);
    }
}

/// Instantiating template roots keeps the invariant of the table.
pub proof fn lemma_instantiated_wf(
    slots: Seq<Option<RecordView>>,
    template: usize,
    root_view: usize,
    roots: Seq<TemplateNode>,
    n: int,
)
    requires
        slots_wf(slots),
    ensures
        slots_wf(instantiated(slots, template, root_view, roots, n).0),
        instantiated(slots, template, root_view, roots, n).0.len() >= slots.len(),
    decreases n,
{
    if 0 < n <= roots.len() {
        lemma_instantiated_wf(slots, template, root_view, roots, n - 1);
        let before = instantiated(slots, template, root_view, roots, n - 1).0;
        let plan = node_plan(roots[n - 1], seq![(n - 1) as usize]);
        lemma_bound_plan_wf(before, template, root_view, plan, plan.len() as int);
    }
}

/// Binds one planned widget and adds to `ops` what makes it.
fn bind_widget(
    table: &mut NodeTable,
    template: usize,
    root_view: usize,
    plan: &WidgetPlan,
    ops: &mut Vec<BackendOp>,
)
    requires
        old(table).wf(),
    ensures
        final(table)@ == bound_one(old(table)@, template, root_view, plan@).0,
        op_views(final(ops)@) == op_views(old(ops)@) + bound_one(
            old(table)@,
            template,
            root_view,
            plan@,
        ).1,
        final(table).wf(),
{
    let ghost start = op_views(ops@);
    let parent = if plan.path.len() > 1 {
        let mut above = copy_path(&plan.path);
        above.pop();
        assert(above@ =~= plan.path@.drop_last());
        match table.handle_at(template, &above) {
            Some(i) => i,
            None => root_view,
        }
    } else {
        root_view
    };
    let (handle, created) = table.bind_path(template, &plan.path, plan.blueprint);
    if created {
        let made = BackendOp::CreateWidget { handle, blueprint: plan.blueprint, parent };
        proof {
            lemma_op_views_push(ops@, made);
        }
        ops.push(made);
        if plan.blueprint.is_text_bearing() {
            let text = BackendOp::SetText { handle, value: plan.text.clone() };
            proof {
                lemma_op_views_push(ops@, text);
            }
            ops.push(text);
        }
        push_property_ops(ops, handle, &plan.writes);
        assert(op_views(ops@) =~= start + widget_ops(handle, parent, plan@));
    } else {
        assert(op_views(ops@) =~= start + Seq::<OpView>::empty());
    }
}

/// Instantiates root `index` of the template `template`: binds every
/// widget it asks for and adds to `ops` what makes the new ones.
pub fn instantiate_root(
    table: &mut NodeTable,
    template: usize,
    root_view: usize,
    root: &TemplateNode,
    index: usize,
    ops: &mut Vec<BackendOp>,
)
    requires
        old(table).wf(),
    ensures
        final(table)@ == instantiated_root(old(table)@, template, root_view, *root, index).0,
        op_views(final(ops)@) == op_views(old(ops)@) + instantiated_root(
            old(table)@,
            template,
            root_view,
            *root,
            index,
        ).1,
        final(table).wf(),
{
    let ghost start = op_views(ops@);
    let ghost slots = table@;
    let mut path: Vec<usize> = Vec::new();
    path.push(index);
    assert(path@ =~= seq![index]);
    let mut plan: Vec<WidgetPlan> = Vec::new();
    plan_node(root, &path, &mut plan);
    assert(plan_views(plan@) =~= node_plan(*root, seq![index]));
    let ghost views = plan_views(plan@);
    let mut i: usize = 0;
    assert(start + Seq::<OpView>::empty() =~= start);
    while i < plan.len()
        invariant
            i <= plan.len(),
            views == plan_views(plan@),
            table.wf(),
            table@ == bound_plan(slots, template, root_view, views, i as int).0,
            op_views(ops@) == start + bound_plan(slots, template, root_view, views, i as int).1,
        decreases plan.len() - i,
    {
        let ghost before = bound_plan(slots, template, root_view, views, i as int);
        let ghost more = bound_one(before.0, template, root_view, views[i as int]);
        assert(views[i as int] == plan[i as int]@);
        bind_widget(table, template, root_view, &plan[i], ops);
        assert((start + before.1) + more.1 =~= start + (before.1 + more.1));
        i += 1;
    }
}

/// The template registry.
pub struct TemplateRegistry {
    templates: Vec<Template>,
}

impl View for TemplateRegistry {
    type V = Seq<Template>;

    closed spec fn view(&self) -> Seq<Template> {
        self.templates@
    }
}

impl TemplateRegistry {
    /// No two templates share a name.
    pub open spec fn wf(&self) -> bool {
        names_distinct(self@)
    }

    /// A registry without templates.
    pub fn new() -> (registry: TemplateRegistry)
        ensures
            registry@ == Seq::<Template>::empty(),
            registry.wf(),
    {
        TemplateRegistry { templates: Vec::new() }
    }

    /// Forgets every template.
    pub fn clear(&mut self)
        ensures
            final(self)@ == Seq::<Template>::empty(),
            final(self).wf(),
    {
        self.templates.clear();
    }

    /// How many templates are registered.
    pub fn len(&self) -> (n: usize)
        ensures
            n == self@.len(),
    {
        self.templates.len()
    }

    /// The handle of the template called `name`, if it is registered.
    pub fn find(&self, name: &str) -> (found: Option<usize>)
        requires
            self.wf(),
        ensures
            match found {
                Some(i) => template_index(self@, name@) == Some(i as int) && i < self@.len(),
                None => template_index(self@, name@) is None,
            },
    {
        let mut i: usize = 0;
        while i < self.templates.len()
            invariant
                i <= self.templates.len(),
                self.wf(),
                forall|k: int| 0 <= k < i ==> (#[trigger] self@[k]).name@ != name@,
            decreases self.templates.len() - i,
        {
            if same_text(self.templates[i].name.as_str(), name) {
                proof {
                    let j = choose|j: int|
                        0 <= j < self@.len() && (#[trigger] self@[j]).name@ == name@;
                    if j < i {
                        assert(self@[j].name@ != name@);
                    } else if j > i {
                        assert(self@[i as int].name@ != self@[j].name@);
                    }
                }
                return Some(i);
            }
            i += 1;
        }
        None
    }

    /// The template behind a handle.
    pub fn get(&self, handle: usize) -> (template: Option<&Template>)
        ensures
            match template {
                Some(t) => handle < self@.len() && *t == self@[handle as int],
                None => handle >= self@.len(),
            },
    {
        if handle < self.templates.len() {
            Some(&self.templates[handle])
        } else {
            None
        }
    }

    /// Registers a template and gives its handle. A template is never
    /// replaced: where one of that name is registered already, its
    /// handle comes back and the registry stays as it is.
    pub fn register(&mut self, template: Template) -> (handle: usize)
        requires
            old(self).wf(),
        ensures
            match template_index(old(self)@, template.name@) {
                Some(i) => final(self)@ == old(self)@ && handle == i,
                None => final(self)@ == old(self)@.push(template) && handle == old(self)@.len(),
            },
            final(self).wf(),
            handle < final(self)@.len(),
    {
        match self.find(template.name.as_str()) {
            Some(i) => i,
            None => {
                let handle = self.templates.len();
                self.templates.push(template);
                handle
            },
        }
    }

    /// Instantiates every root of the template behind `handle` under
    /// `root_view`, and gives the operations that make the widgets.
    ///
    /// Each widget is bound in `table` under its path; a path that has a
    /// record already keeps it, and no widget is made for it again. No
    /// two records share a path afterwards. A handle that names no
    /// template instantiates nothing.
    pub fn instantiate(&self, handle: usize, root_view: usize, table: &mut NodeTable) -> (ops: Vec<
        BackendOp,
    >)
        requires
            old(table).wf(),
        ensures
            handle < self@.len() ==> (final(table)@, op_views(ops@)) == instantiated(
                old(table)@,
                handle,
                root_view,
                self@[handle as int].roots@,
                self@[handle as int].roots@.len() as int,
            ),
            handle >= self@.len() ==> final(table)@ == old(table)@ && ops@.len() == 0,
            final(table).wf(),
    {
        let mut ops: Vec<BackendOp> = Vec::new();
        if handle >= self.templates.len() {
            return ops;
        }
        let roots = &self.templates[handle].roots;
        let ghost slots = table@;
        let mut i: usize = 0;
        assert(op_views(ops@) =~= Seq::<OpView>::empty());
        while i < roots.len()
            invariant
                i <= roots.len(),
                table.wf(),
                (table@, op_views(ops@)) == instantiated(slots, handle, root_view, roots@, i as int),
            decreases roots.len() - i,
        {
            instantiate_root(table, handle, root_view, &roots[i], i, &mut ops);
            i += 1;
        }
        ops
    }
}

} // verus!
