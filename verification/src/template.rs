//! Templates: the blueprints that the virtual side registers once, and
//! the plan of native widgets that each of them stands for.

use vstd::prelude::*;
use crate::style::{attribute_writes, translate, PropertyWrite};
use crate::text::same_text;

verus! {

/// The kinds of native widget that the bridge can ask for.
#[derive(Clone, Copy, Debug, PartialEq, Eq, Structural)]
pub enum Blueprint {
    /// A container that lays its children out one below the other.
    View,
    /// A line of text.
    Label,
    /// A first-level heading.
    Heading1,
    /// A third-level heading.
    Heading3,
    /// A push button with a caption.
    Button,
}

impl Blueprint {
    /// Whether a widget of this kind carries text rather than children.
    pub open spec fn text_bearing(self) -> bool {
        !(self is View)
    }

    /// The kind of widget that stands for a tag, if the tag is known.
    pub open spec fn of_tag(tag: Seq<char>) -> Option<Blueprint> {
        if tag == "div"@ {
            Some(Blueprint::View)
        } else if tag == "p"@ {
            Some(Blueprint::Label)
        } else if tag == "h1"@ {
            Some(Blueprint::Heading1)
        } else if tag == "h3"@ {
            Some(Blueprint::Heading3)
        } else if tag == "button"@ {
            Some(Blueprint::Button)
        } else {
            None
        }
    }

    /// Whether a widget of this kind carries text rather than children.
    pub fn is_text_bearing(&self) -> (r: bool)
        ensures
            r == self.text_bearing(),
    {
        match self {
            Blueprint::View => false,
            _ => true,
        }
    }

    /// Looks a tag up: `div` is a container, `p`, `h1`, `h3` and `button`
    /// carry text, and any other tag has no widget.
    pub fn for_tag(tag: &str) -> (r: Option<Blueprint>)
        ensures
            r == Blueprint::of_tag(tag@),
    {
        if same_text(tag, "div") {
            Some(Blueprint::View)
        } else if same_text(tag, "p") {
            Some(Blueprint::Label)
        } else if same_text(tag, "h1") {
            Some(Blueprint::Heading1)
        } else if same_text(tag, "h3") {
            Some(Blueprint::Heading3)
        } else if same_text(tag, "button") {
            Some(Blueprint::Button)
        } else {
            None
        }
    }
}

/// A declared attribute of a template element.
pub struct Attribute {
    pub name: String,
    pub value: String,
}

/// A node of a template.
pub enum TemplateNode {
    /// An element with its attributes and children, in order.
    Element { tag: String, attributes: Vec<Attribute>, children: Vec<TemplateNode> },
    /// Text that is the same in every instance.
    StaticText { literal: String },
    /// The place of a value that the virtual side computes.
    DynamicSlot { index: usize },
}

/// A template: a name and the root nodes under it.
pub struct Template {
    pub name: String,
    pub roots: Vec<TemplateNode>,
}

/// One native widget that a template asks for.
pub struct WidgetPlan {
    /// Where the node sits in its template, root index first.
    pub path: Vec<usize>,
    /// The kind of widget to make.
    pub blueprint: Blueprint,
    /// The text it starts with; empty for a container.
    pub text: String,
    /// The property writes that its attributes stand for.
    pub writes: Vec<PropertyWrite>,
}

/// What a `WidgetPlan` holds, as plain values.
pub struct PlanView {
    pub path: Seq<usize>,
    pub blueprint: Blueprint,
    pub text: Seq<char>,
    pub writes: Seq<PropertyWrite>,
}

impl View for WidgetPlan {
    type V = PlanView;

    open spec fn view(&self) -> PlanView {
        PlanView {
            path: self.path@,
            blueprint: self.blueprint,
            text: self.text@,
            writes: self.writes@,
        }
    }
}

/// The views of a sequence of plans.
pub open spec fn plan_views(plans: Seq<WidgetPlan>) -> Seq<PlanView> {
    plans.map_values(|p: WidgetPlan| p@)
}

/// The text that a text-bearing element starts with: the literals of its
/// static text children from the `i`-th on, one after the other. A
/// dynamic slot adds nothing until it is hydrated.
pub open spec fn initial_text(children: Seq<TemplateNode>, i: int) -> Seq<char>
    decreases children.len() - i,
{
    if 0 <= i < children.len() {
        let here = match children[i] {
            TemplateNode::StaticText { literal } => literal@,
            _ => Seq::empty(),
        };
        here + initial_text(children, i + 1)
    } else {
        Seq::empty()
    }
}

/// The writes that the attributes from the `i`-th on stand for.
pub open spec fn attributes_writes(attributes: Seq<Attribute>, i: int) -> Seq<PropertyWrite>
    decreases attributes.len() - i,
{
    if 0 <= i < attributes.len() {
        attribute_writes(attributes[i].name@, attributes[i].value@) + attributes_writes(
            attributes,
            i + 1,
        )
    } else {
        Seq::empty()
    }
}

/// The widgets that the node at `path` and the nodes below it ask for,
/// parents before children and children in order.
///
/// An element with a known tag asks for one widget. A container is
/// followed by the widgets of its children. The children of a
/// text-bearing element are its text, not widgets of their own. Text
/// that stands among the children of a container, or as a root, asks
/// for a text widget that shows it; a dynamic slot there asks for an
/// empty text widget, which marks the place for what is put there later
/// and shows the text that the slot is hydrated with. An element with
/// an unknown tag asks for nothing, and nothing below it is visited; it
/// keeps its place among its siblings all the same, so that no path
/// shifts.
pub open spec fn node_plan(node: TemplateNode, path: Seq<usize>) -> Seq<PlanView>
    decreases node, 0nat,
{
    match node {
        TemplateNode::Element { tag, attributes, children } => match Blueprint::of_tag(tag@) {
            Some(blueprint) => {
                if blueprint.text_bearing() {
                    seq![
                        PlanView {
                            path,
                            blueprint,
                            text: initial_text(children@, 0),
                            writes: attributes_writes(attributes@, 0),
                        },
                    ]
                } else {
                    seq![
                        PlanView {
                            path,
                            blueprint,
                            text: Seq::empty(),
                            writes: attributes_writes(attributes@, 0),
                        },
                    ] + children_plan(children@, path, 0)
                }
            },
            None => Seq::empty(),
        },
        TemplateNode::StaticText { literal } => seq![
            PlanView { path, blueprint: Blueprint::Label, text: literal@, writes: Seq::empty() },
        ],
        TemplateNode::DynamicSlot { .. } => seq![
            PlanView {
                path,
                blueprint: Blueprint::Label,
                text: Seq::empty(),
                writes: Seq::empty(),
            },
        ],
    }
}

/// The widgets that the children from the `i`-th on ask for, where
/// `path` is the path of their parent.
pub open spec fn children_plan(children: Seq<TemplateNode>, path: Seq<usize>, i: int) -> Seq<
    PlanView,
>
    decreases children, children.len() - i,
{
    if 0 <= i < children.len() {
        node_plan(children[i], path.push(i as usize)) + children_plan(children, path, i + 1)
    } else {
        Seq::empty()
    }
}

/// No two entries of `plan` share a path.
pub open spec fn paths_distinct(plan: Seq<PlanView>) -> bool {
    forall|a: int, b: int| 0 <= a < b < plan.len() ==> plan[a].path != plan[b].path
}

/// Every path in `plan` starts with `prefix`.
pub open spec fn paths_extend(plan: Seq<PlanView>, prefix: Seq<usize>) -> bool {
    forall|k: int|
        0 <= k < plan.len() ==> (#[trigger] plan[k]).path.len() >= prefix.len()
            && plan[k].path.subrange(0, prefix.len() as int) == prefix
}

/// Every path in `plan` goes through a child of `parent` whose index is
/// at least `i`.
pub open spec fn paths_below(plan: Seq<PlanView>, parent: Seq<usize>, i: int) -> bool {
    forall|k: int|
        0 <= k < plan.len() ==> (#[trigger] plan[k]).path.len() > parent.len()
            && plan[k].path.subrange(0, parent.len() as int) == parent
            && plan[k].path[parent.len() as int] >= i
}

/// The widgets planned for a node all sit at or below the node's path.
pub proof fn lemma_node_plan_extends(node: TemplateNode, path: Seq<usize>)
    ensures
        paths_extend(node_plan(node, path), path),
    decreases node, 0nat,
{
    match node {
        TemplateNode::Element { tag, attributes, children } => {
            if let Some(blueprint) = Blueprint::of_tag(tag@) {
                assert(path.subrange(0, path.len() as int) =~= path);
                if !blueprint.text_bearing() {
                    assert(children@.len() == children.len());
                    lemma_children_plan_below(children@, path, 0);
                }
            }
        },
        _ => {
            assert(path.subrange(0, path.len() as int) =~= path);
        },
    }
}

/// The widgets planned for the children from `i` on sit below children
/// `i` and later of the parent.
pub proof fn lemma_children_plan_below(children: Seq<TemplateNode>, path: Seq<usize>, i: int)
    requires
        0 <= i,
        children.len() <= usize::MAX,
    ensures
        paths_below(children_plan(children, path, i), path, i),
    decreases children, children.len() - i,
{
    if i < children.len() {
        let child_path = path.push(i as usize);
        let first = node_plan(children[i], child_path);
        let rest = children_plan(children, path, i + 1);
        lemma_node_plan_extends(children[i], child_path);
        lemma_children_plan_below(children, path, i + 1);
        assert forall|k: int| 0 <= k < (first + rest).len() implies (#[trigger] (first
            + rest)[k]).path.len() > path.len() && (first + rest)[k].path.subrange(
            0,
            path.len() as int,
        ) == path && (first + rest)[k].path[path.len() as int] >= i by {
            if k < first.len() {
                let p = first[k].path;
                assert(p.subrange(0, child_path.len() as int) == child_path);
                assert(p.subrange(0, path.len() as int) =~= child_path.subrange(
                    0,
                    path.len() as int,
                ));
                assert(child_path.subrange(0, path.len() as int) =~= path);
                assert(p[path.len() as int] == p.subrange(0, child_path.len() as int)[path.len() as int]);
            } else {
                assert((first + rest)[k] == rest[k - first.len()]);
            }
        }
    }
}

/// Instantiating a node never asks for two widgets at one path.
pub proof fn lemma_node_plan_distinct(node: TemplateNode, path: Seq<usize>)
    ensures
        paths_distinct(node_plan(node, path)),
    decreases node, 0nat,
{
    match node {
        TemplateNode::Element { tag, attributes, children } => {
            if let Some(blueprint) = Blueprint::of_tag(tag@) {
                if !blueprint.text_bearing() {
                    let below = children_plan(children@, path, 0);
                    assert(children@.len() == children.len());
                    lemma_children_plan_distinct(children@, path, 0);
                    lemma_children_plan_below(children@, path, 0);
                    let plan = node_plan(node, path);
                    assert forall|a: int, b: int| 0 <= a < b < plan.len() implies plan[a].path
                        != plan[b].path by {
                        assert(plan[b] == below[b - 1]);
                        if a > 0 {
                            assert(plan[a] == below[a - 1]);
                        }
                    }
                }
            }
        },
        _ => {},
    }
}

/// Instantiating the children of a node never asks for two widgets at
/// one path.
pub proof fn lemma_children_plan_distinct(children: Seq<TemplateNode>, path: Seq<usize>, i: int)
    requires
        0 <= i,
        children.len() <= usize::MAX,
    ensures
        paths_distinct(children_plan(children, path, i)),
    decreases children, children.len() - i,
{
    if i < children.len() {
        let child_path = path.push(i as usize);
        let first = node_plan(children[i], child_path);
        let rest = children_plan(children, path, i + 1);
        lemma_node_plan_distinct(children[i], child_path);
        lemma_children_plan_distinct(children, path, i + 1);
        lemma_node_plan_extends(children[i], child_path);
        lemma_children_plan_below(children, path, i + 1);
        let plan = first + rest;
        assert forall|a: int, b: int| 0 <= a < b < plan.len() implies plan[a].path
            != plan[b].path by {
            if b < first.len() {
            } else if a >= first.len() {
                assert(plan[a] == rest[a - first.len()]);
                assert(plan[b] == rest[b - first.len()]);
            } else {
                assert(plan[b] == rest[b - first.len()]);
                let p = first[a].path;
                let q = rest[b - first.len()].path;
                assert(p.subrange(0, child_path.len() as int) == child_path);
                assert(p[path.len() as int] == p.subrange(0, child_path.len() as int)[path.len() as int]);
                assert(q[path.len() as int] >= i + 1);
            }
        }
    }
}

/// The text that a text-bearing element with these children starts with.
fn text_of(children: &Vec<TemplateNode>) -> (text: String)
    ensures
        text@ == initial_text(children@, 0),
{
    let mut text = String::new();
    let mut i: usize = 0;
    while i < children.len()
        invariant
            i <= children.len(),
            text@ + initial_text(children@, i as int) == initial_text(children@, 0),
        decreases children.len() - i,
    {
        let ghost before = text@;
        let ghost rest = initial_text(children@, i + 1);
        match &children[i] {
            TemplateNode::StaticText { literal } => {
                text.append(literal.as_str());
                assert(before + (literal@ + rest) =~= (before + literal@) + rest);
            },
            _ => {
                assert(before + (Seq::<char>::empty() + rest) =~= before + rest);
            },
        }
        i += 1;
    }
    assert(text@ + Seq::<char>::empty() =~= text@);
    text
}

/// The property writes that these attributes stand for.
fn writes_of(attributes: &Vec<Attribute>) -> (writes: Vec<PropertyWrite>)
    ensures
        writes@ == attributes_writes(attributes@, 0),
{
    let mut writes: Vec<PropertyWrite> = Vec::new();
    let mut i: usize = 0;
    while i < attributes.len()
        invariant
            i <= attributes.len(),
            writes@ + attributes_writes(attributes@, i as int) == attributes_writes(attributes@, 0),
        decreases attributes.len() - i,
    {
        let ghost before = writes@;
        let ghost rest = attributes_writes(attributes@, i + 1);
        let mut translation = translate(attributes[i].name.as_str(), attributes[i].value.as_str());
        let ghost here = translation.writes@;
        writes.append(&mut translation.writes);
        assert(before + (here + rest) =~= (before + here) + rest);
        i += 1;
    }
    assert(writes@ + Seq::<PropertyWrite>::empty() =~= writes@);
    writes
}

/// A copy of a path.
pub(crate) fn copy_path(path: &Vec<usize>) -> (copy: Vec<usize>)
    ensures
        copy@ == path@,
{
    let mut copy: Vec<usize> = Vec::new();
    let mut i: usize = 0;
    while i < path.len()
        invariant
            i <= path.len(),
            copy@ == path@.take(i as int),
        decreases path.len() - i,
    {
        copy.push(path[i]);
        i += 1;
    }
    copy
}

proof fn lemma_plan_views_push(plans: Seq<WidgetPlan>, plan: WidgetPlan)
    ensures
        plan_views(plans.push(plan)) == plan_views(plans).push(plan@),
{
    assert(plan_views(plans.push(plan)) =~= plan_views(plans).push(plan@));
}

/// Walks the node at `path` and what lies below it, and adds to `out`
/// the widgets that they ask for.
pub fn plan_node(node: &TemplateNode, path: &Vec<usize>, out: &mut Vec<WidgetPlan>)
    ensures
        plan_views(final(out)@) == plan_views(old(out)@) + node_plan(*node, path@),
    decreases node,
{
    let ghost start = plan_views(out@);
    match node {
        TemplateNode::Element { tag, attributes, children } => {
            match Blueprint::for_tag(tag.as_str()) {
                Some(blueprint) => {
                    let writes = writes_of(attributes);
                    if blueprint.is_text_bearing() {
                        let text = text_of(children);
                        let plan = WidgetPlan { path: copy_path(path), blueprint, text, writes };
                        proof {
                            lemma_plan_views_push(out@, plan);
                            assert(start.push(plan@) =~= start + node_plan(*node, path@));
                        }
                        out.push(plan);
                    } else {
                        let plan = WidgetPlan {
                            path: copy_path(path),
                            blueprint,
                            text: String::new(),
                            writes,
                        };
                        proof {
                            lemma_plan_views_push(out@, plan);
                        }
                        out.push(plan);
                        let ghost head = plan_views(out@);
                        let mut i: usize = 0;
                        while i < children.len()
                            invariant
                                i <= children.len(),
                                *node is Element,
                                node->children == *children,
                                plan_views(out@) + children_plan(children@, path@, i as int)
                                    == head + children_plan(children@, path@, 0),
                            decreases children.len() - i,
                        {
                            let ghost before = plan_views(out@);
                            let mut child_path = copy_path(path);
                            child_path.push(i);
                            proof {
                                vstd::std_specs::vec::axiom_vec_index_decreases(*children, i as int);
                            }
                            plan_node(&children[i], &child_path, out);
                            proof {
                                let first = node_plan(children@[i as int], path@.push(i));
                                let rest = children_plan(children@, path@, i + 1);
                                assert(before + (first + rest) =~= (before + first) + rest);
                            }
                            i += 1;
                        }
                        proof {
                            assert(plan_views(out@) + Seq::<PlanView>::empty() =~= plan_views(
                                out@,
                            ));
                            assert(start.push(plan@) + children_plan(children@, path@, 0)
                                =~= start + node_plan(*node, path@));
                        }
                    }
                },
                None => {
                    assert(start + Seq::<PlanView>::empty() =~= start);
                },
            }
        },
        TemplateNode::StaticText { literal } => {
            let plan = WidgetPlan {
                path: copy_path(path),
                blueprint: Blueprint::Label,
                text: literal.clone(),
                writes: Vec::new(),
            };
            proof {
                lemma_plan_views_push(out@, plan);
                assert(start.push(plan@) =~= start + node_plan(*node, path@));
            }
            out.push(plan);
        },
        TemplateNode::DynamicSlot { .. } => {
            let plan = WidgetPlan {
                path: copy_path(path),
                blueprint: Blueprint::Label,
                text: String::new(),
                writes: Vec::new(),
            };
            proof {
                lemma_plan_views_push(out@, plan);
                assert(start.push(plan@) =~= start + node_plan(*node, path@));
            }
            out.push(plan);
        },
    }
}

} // verus!
