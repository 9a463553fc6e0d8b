use dioxus_makepad::backend::{BackendOp, Placement};
use dioxus_makepad::error::{BatchError, ErrorKind};
use dioxus_makepad::events::{DioxusListener, EventRegistry};
use dioxus_makepad::instruction::Instruction;
use dioxus_makepad::machine::{interpret, normalized};
use dioxus_makepad::registry::TemplateRegistry;
use dioxus_makepad::style::{Alignment, PropertyWrite};
use dioxus_makepad::table::{NodeTable, ROOT_HANDLE, ROOT_ID};
use dioxus_makepad::template::{Attribute, Blueprint, Template, TemplateNode};

fn element(tag: &str, attributes: Vec<(&str, &str)>, children: Vec<TemplateNode>) -> TemplateNode {
    TemplateNode::Element {
        tag: tag.to_string(),
        attributes: attributes
            .into_iter()
            .map(|(name, value)| Attribute { name: name.to_string(), value: value.to_string() })
            .collect(),
        children,
    }
}

fn text(literal: &str) -> TemplateNode {
    TemplateNode::StaticText { literal: literal.to_string() }
}

fn template(name: &str, roots: Vec<TemplateNode>) -> Template {
    Template { name: name.to_string(), roots }
}

struct Bridge {
    registry: TemplateRegistry,
    table: NodeTable,
    events: EventRegistry,
}

impl Bridge {
    fn new(templates: Vec<Template>) -> Bridge {
        let mut registry = TemplateRegistry::new();
        for t in templates {
            registry.register(t);
        }
        Bridge { registry, table: NodeTable::new(), events: EventRegistry::new() }
    }

    fn run(&mut self, batch: Vec<Instruction>) -> Result<Vec<BackendOp>, BatchError> {
        interpret(&self.registry, &mut self.table, &mut self.events, &batch)
    }
}

fn load(name: &str, index: usize) -> Instruction {
    Instruction::LoadTemplate { name: name.to_string(), index }
}

fn create_text(value: &str, id: u64) -> Instruction {
    Instruction::CreateTextNode { value: value.to_string(), id }
}

fn set_text(id: u64, value: &str) -> Instruction {
    Instruction::SetText { id, value: value.to_string() }
}

fn listen(name: &str, id: u64) -> Instruction {
    Instruction::NewEventListener { name: name.to_string(), id }
}

fn attach(target: usize, children: Vec<usize>, placement: Placement) -> BackendOp {
    BackendOp::AttachChildren { target, children, placement }
}

fn widget(handle: usize, blueprint: Blueprint) -> BackendOp {
    BackendOp::CreateWidget { handle, blueprint, parent: ROOT_HANDLE }
}

fn shown(handle: usize, value: &str) -> BackendOp {
    BackendOp::SetText { handle, value: value.to_string() }
}

fn counter() -> Template {
    template(
        "counter",
        vec![element(
            "div",
            vec![],
            vec![
                element("p", vec![], vec![TemplateNode::DynamicSlot { index: 0 }]),
                element("button", vec![("style", "margin-top: 20px")], vec![text("Add")]),
            ],
        )],
    )
}

#[test]
fn empty_batch_does_nothing() {
    let mut bridge = Bridge::new(vec![counter()]);
    assert_eq!(bridge.run(vec![]), Ok(vec![]));
    assert_eq!(bridge.table.slot_count(), 1);
    assert_eq!(bridge.events.len(), 0);
}

#[test]
fn paragraph_is_loaded_bound_and_attached() {
    let mut bridge = Bridge::new(vec![template("t", vec![element("p", vec![], vec![text("hi")])])]);
    let ops = bridge
        .run(vec![
            load("t", 0),
            Instruction::AssignId { path: vec![0], id: 1 },
            Instruction::AppendChildren { id: ROOT_ID, m: 1 },
        ])
        .unwrap();
    assert_eq!(
        ops,
        vec![
            widget(1, Blueprint::Label),
            shown(1, "hi"),
            attach(ROOT_HANDLE, vec![1], Placement::Inside),
        ]
    );
    let made: Vec<&BackendOp> =
        ops.iter().filter(|op| matches!(op, BackendOp::CreateWidget { .. })).collect();
    assert_eq!(made.len(), 1);
    let record = bridge.table.lookup_by_id(1).unwrap();
    assert_eq!(record.handle, 1);
    assert_eq!(record.blueprint, Blueprint::Label);
    assert_eq!(record.path, vec![0]);
}

#[test]
fn load_template_instantiates_the_whole_root() {
    let mut bridge = Bridge::new(vec![counter()]);
    let ops = bridge.run(vec![load("counter", 0)]).unwrap();
    assert_eq!(
        ops,
        vec![
            widget(1, Blueprint::View),
            BackendOp::CreateWidget { handle: 2, blueprint: Blueprint::Label, parent: 1 },
            shown(2, ""),
            BackendOp::CreateWidget { handle: 3, blueprint: Blueprint::Button, parent: 1 },
            shown(3, "Add"),
            BackendOp::SetProperty { handle: 3, write: PropertyWrite::MarginTop(20) },
        ]
    );
    assert_eq!(bridge.table.handle_at(0, &vec![0]), Some(1));
    assert_eq!(bridge.table.handle_at(0, &vec![0, 0]), Some(2));
    assert_eq!(bridge.table.handle_at(0, &vec![0, 1]), Some(3));
}

#[test]
fn load_template_again_fetches_what_is_there() {
    let mut bridge = Bridge::new(vec![counter()]);
    bridge.run(vec![load("counter", 0)]).unwrap();
    let ops = bridge
        .run(vec![load("counter", 0), Instruction::AppendChildren { id: ROOT_ID, m: 1 }])
        .unwrap();
    assert_eq!(ops, vec![attach(ROOT_HANDLE, vec![1], Placement::Inside)]);
    assert_eq!(bridge.table.slot_count(), 4);
}

#[test]
fn load_template_of_unknown_name_or_root_fails() {
    let mut bridge = Bridge::new(vec![
        counter(),
        template("bare", vec![element("section", vec![], vec![]), element("span", vec![], vec![])]),
    ]);
    assert_eq!(
        bridge.run(vec![load("missing", 0)]),
        Err(BatchError { index: 0, kind: ErrorKind::UnknownPath })
    );
    assert_eq!(
        bridge.run(vec![load("counter", 1)]),
        Err(BatchError { index: 0, kind: ErrorKind::UnknownPath })
    );
    assert_eq!(
        bridge.run(vec![load("bare", 0)]),
        Err(BatchError { index: 0, kind: ErrorKind::UnknownPath })
    );
    assert_eq!(
        bridge.run(vec![load("bare", 1)]),
        Err(BatchError { index: 0, kind: ErrorKind::UnknownPath })
    );
    assert_eq!(bridge.table.slot_count(), 1);
}

#[test]
fn placeholder_in_a_template_is_replaced_by_path() {
    let list = template(
        "list",
        vec![element(
            "div",
            vec![],
            vec![
                element("h1", vec![], vec![text("Items")]),
                TemplateNode::DynamicSlot { index: 0 },
                element("p", vec![], vec![text("end")]),
            ],
        )],
    );
    let mut bridge = Bridge::new(vec![list]);
    let ops = bridge
        .run(vec![
            load("list", 0),
            create_text("one", 7),
            create_text("two", 8),
            Instruction::ReplacePlaceholder { path: vec![1], m: 2 },
            Instruction::AppendChildren { id: ROOT_ID, m: 1 },
        ])
        .unwrap();
    assert_eq!(
        ops,
        vec![
            widget(1, Blueprint::View),
            BackendOp::CreateWidget { handle: 2, blueprint: Blueprint::Heading1, parent: 1 },
            shown(2, "Items"),
            BackendOp::CreateWidget { handle: 3, blueprint: Blueprint::Label, parent: 1 },
            shown(3, ""),
            BackendOp::CreateWidget { handle: 4, blueprint: Blueprint::Label, parent: 1 },
            shown(4, "end"),
            widget(5, Blueprint::Label),
            shown(5, "one"),
            widget(6, Blueprint::Label),
            shown(6, "two"),
            attach(3, vec![6, 5], Placement::Before),
            BackendOp::Detach { handle: 3 },
            attach(ROOT_HANDLE, vec![1], Placement::Inside),
        ]
    );
    assert_eq!(bridge.table.handle_at(0, &vec![0, 1]), None);
}

#[test]
fn dynamic_text_in_a_container_is_hydrated_in_place() {
    let mut bridge = Bridge::new(vec![template(
        "t",
        vec![element("div", vec![], vec![TemplateNode::DynamicSlot { index: 0 }])],
    )]);
    let ops = bridge
        .run(vec![
            load("t", 0),
            Instruction::HydrateText { path: vec![0], value: "now".to_string(), id: 3 },
        ])
        .unwrap();
    assert_eq!(ops.last().unwrap(), &shown(2, "now"));
    assert_eq!(bridge.table.lookup_by_id(3).unwrap().path, vec![0, 0]);
}

#[test]
fn paths_start_from_the_root_loaded_last() {
    let two = template(
        "two",
        vec![
            element("div", vec![], vec![element("p", vec![], vec![text("a")])]),
            element("div", vec![], vec![element("p", vec![], vec![text("b")])]),
        ],
    );
    let mut bridge = Bridge::new(vec![counter(), two]);
    bridge
        .run(vec![
            load("two", 0),
            Instruction::AssignId { path: vec![0], id: 10 },
            load("two", 1),
            Instruction::AssignId { path: vec![0], id: 11 },
            load("counter", 0),
            Instruction::AssignId { path: vec![1], id: 12 },
        ])
        .unwrap();
    let a = bridge.table.lookup_by_id(10).unwrap();
    assert_eq!((a.template, a.path.clone()), (1, vec![0, 0]));
    let b = bridge.table.lookup_by_id(11).unwrap();
    assert_eq!((b.template, b.path.clone()), (1, vec![1, 0]));
    let c = bridge.table.lookup_by_id(12).unwrap();
    assert_eq!((c.template, c.path.clone(), c.blueprint), (0, vec![0, 1], Blueprint::Button));
}

#[test]
fn path_instruction_before_any_load_fails() {
    let mut bridge = Bridge::new(vec![counter()]);
    bridge.run(vec![load("counter", 0)]).unwrap();
    assert_eq!(
        bridge.run(vec![Instruction::AssignId { path: vec![1], id: 2 }]),
        Err(BatchError { index: 0, kind: ErrorKind::UnknownPath })
    );
    assert_eq!(
        bridge.run(vec![Instruction::HydrateText { path: vec![0, 0], value: "x".to_string(), id: 2 }]),
        Err(BatchError { index: 0, kind: ErrorKind::UnknownPath })
    );
    assert_eq!(
        bridge.run(vec![Instruction::ReplacePlaceholder { path: vec![1], m: 0 }]),
        Err(BatchError { index: 0, kind: ErrorKind::UnknownPath })
    );
}

#[test]
fn normalized_path_has_the_root_in_front() {
    assert_eq!(normalized(0, &vec![]), vec![0]);
    assert_eq!(normalized(0, &vec![1]), vec![0, 1]);
    assert_eq!(normalized(3, &vec![0, 2, 0]), vec![3, 0, 2, 0]);
}

#[test]
fn hydrate_text_binds_and_shows() {
    let mut bridge = Bridge::new(vec![counter()]);
    let ops = bridge
        .run(vec![
            load("counter", 0),
            Instruction::HydrateText { path: vec![0, 0], value: "Count: 0".to_string(), id: 2 },
        ])
        .unwrap();
    assert_eq!(ops.last().unwrap(), &shown(2, "Count: 0"));
    let record = bridge.table.lookup_by_id(2).unwrap();
    assert_eq!(record.handle, 2);
    assert_eq!(record.path, vec![0, 0]);
    assert_eq!(record.blueprint, Blueprint::Label);
}

#[test]
fn create_placeholder_and_text_node() {
    let mut bridge = Bridge::new(vec![]);
    let ops = bridge
        .run(vec![
            Instruction::CreatePlaceholder { id: 4 },
            create_text("hello", 5),
            Instruction::AppendChildren { id: ROOT_ID, m: 2 },
        ])
        .unwrap();
    assert_eq!(
        ops,
        vec![
            widget(1, Blueprint::View),
            widget(2, Blueprint::Label),
            shown(2, "hello"),
            attach(ROOT_HANDLE, vec![2, 1], Placement::Inside),
        ]
    );
    assert_eq!(bridge.table.lookup_by_id(4).unwrap().handle, 1);
    assert_eq!(bridge.table.lookup_by_id(5).unwrap().handle, 2);
    assert!(bridge.table.lookup_by_id(5).unwrap().path.is_empty());
}

#[test]
fn second_bind_of_an_id_fails() {
    let mut bridge = Bridge::new(vec![counter()]);
    assert_eq!(
        bridge.run(vec![Instruction::CreatePlaceholder { id: 4 }, create_text("x", 4)]),
        Err(BatchError { index: 1, kind: ErrorKind::DuplicateId })
    );
    assert_eq!(
        bridge.run(vec![create_text("x", 4), Instruction::CreatePlaceholder { id: 4 }]),
        Err(BatchError { index: 1, kind: ErrorKind::DuplicateId })
    );
    assert_eq!(
        bridge.run(vec![
            load("counter", 0),
            Instruction::AssignId { path: vec![0], id: 4 },
            Instruction::AssignId { path: vec![1], id: 4 },
        ]),
        Err(BatchError { index: 2, kind: ErrorKind::DuplicateId })
    );
    assert_eq!(
        bridge.run(vec![
            load("counter", 0),
            Instruction::CreatePlaceholder { id: 4 },
            Instruction::HydrateText { path: vec![0, 0], value: "x".to_string(), id: 4 },
        ]),
        Err(BatchError { index: 2, kind: ErrorKind::DuplicateId })
    );
    assert_eq!(
        bridge.run(vec![Instruction::CreatePlaceholder { id: ROOT_ID }]),
        Err(BatchError { index: 0, kind: ErrorKind::DuplicateId })
    );
    assert_eq!(bridge.table.slot_count(), 1);
    assert_eq!(bridge.table.lookup_by_id(4).unwrap_err(), ErrorKind::UnboundId);
}

#[test]
fn set_text_of_unbound_id_gives_the_batch_up() {
    let mut bridge = Bridge::new(vec![counter()]);
    bridge.run(vec![load("counter", 0), Instruction::AssignId { path: vec![1], id: 2 }, listen("click", 2)]).unwrap();
    let slots = bridge.table.slot_count();
    let outcome = bridge.run(vec![
        create_text("new", 8),
        listen("click", 8),
        Instruction::Remove { id: 2 },
        set_text(5, "x"),
        create_text("never", 9),
    ]);
    assert_eq!(outcome, Err(BatchError { index: 3, kind: ErrorKind::UnboundId }));
    assert_eq!(bridge.table.slot_count(), slots);
    assert_eq!(bridge.table.lookup_by_id(8).unwrap_err(), ErrorKind::UnboundId);
    assert_eq!(bridge.table.lookup_by_id(9).unwrap_err(), ErrorKind::UnboundId);
    assert_eq!(bridge.table.lookup_by_id(2).unwrap().handle, 3);
    assert_eq!(bridge.events.len(), 1);
    assert_eq!(bridge.events.find("click", 3), Some(2));
}

#[test]
fn batches_are_taken_again_after_a_failure() {
    let mut bridge = Bridge::new(vec![]);
    assert!(bridge.run(vec![set_text(5, "x")]).is_err());
    assert_eq!(bridge.run(vec![create_text("a", 5), set_text(5, "b")]), Ok(vec![
        widget(1, Blueprint::Label),
        shown(1, "a"),
        shown(1, "b"),
    ]));
}

#[test]
fn every_instruction_on_an_unbound_id_fails() {
    let mut bridge = Bridge::new(vec![]);
    let unbound = |instruction: Instruction| BatchError { index: 0, kind: {
        let _ = &instruction;
        ErrorKind::UnboundId
    } };
    let cases = vec![
        set_text(5, "x"),
        Instruction::SetAttribute { id: 5, name: "style".to_string(), value: "".to_string(), ns: None },
        listen("click", 5),
        Instruction::RemoveEventListener { name: "click".to_string(), id: 5 },
        Instruction::AppendChildren { id: 5, m: 0 },
        Instruction::ReplaceWith { id: 5, m: 0 },
        Instruction::InsertBefore { id: 5, m: 0 },
        Instruction::InsertAfter { id: 5, m: 0 },
        Instruction::Remove { id: 5 },
        Instruction::PushRoot { id: 5 },
    ];
    for case in cases {
        let expected = unbound(case.clone());
        assert_eq!(bridge.run(vec![case]), Err(expected));
    }
}

#[test]
fn set_attribute_writes_the_translated_style() {
    let mut bridge = Bridge::new(vec![]);
    let ops = bridge
        .run(vec![
            create_text("a", 5),
            Instruction::SetAttribute {
                id: 5,
                name: "style".to_string(),
                value: "text-align: center; margin-top: bogus; margin-top: 20px".to_string(),
                ns: None,
            },
            Instruction::SetAttribute {
                id: 5,
                name: "class".to_string(),
                value: "big".to_string(),
                ns: Some("html".to_string()),
            },
        ])
        .unwrap();
    assert_eq!(
        ops,
        vec![
            widget(1, Blueprint::Label),
            shown(1, "a"),
            BackendOp::SetProperty { handle: 1, write: PropertyWrite::Align(Alignment::Center) },
            BackendOp::SetProperty { handle: 1, write: PropertyWrite::MarginTop(20) },
        ]
    );
}

#[test]
fn listeners_are_registered_and_taken_back() {
    let mut bridge = Bridge::new(vec![]);
    bridge.run(vec![create_text("a", 3), listen("click", 3), listen("input", 3), listen("click", 3)]).unwrap();
    assert_eq!(
        bridge.events.bindings_for(1),
        vec![
            DioxusListener { name: "input".to_string(), handle: 1, id: 3 },
            DioxusListener { name: "click".to_string(), handle: 1, id: 3 },
        ]
    );
    let ops = bridge
        .run(vec![Instruction::RemoveEventListener { name: "click".to_string(), id: 3 }])
        .unwrap();
    assert!(ops.is_empty());
    assert_eq!(bridge.events.find("click", 1), None);
    assert_eq!(bridge.events.find("input", 1), Some(3));
    bridge.run(vec![Instruction::RemoveEventListener { name: "click".to_string(), id: 3 }]).unwrap();
    assert_eq!(bridge.events.len(), 1);
}

#[test]
fn children_are_attached_topmost_first() {
    let mut bridge = Bridge::new(vec![]);
    let ops = bridge
        .run(vec![
            Instruction::CreatePlaceholder { id: 1 },
            create_text("a", 2),
            create_text("b", 3),
            create_text("c", 4),
            Instruction::AppendChildren { id: 1, m: 2 },
            Instruction::AppendChildren { id: ROOT_ID, m: 2 },
        ])
        .unwrap();
    assert_eq!(ops[7], attach(1, vec![4, 3], Placement::Inside));
    assert_eq!(ops[8], attach(ROOT_HANDLE, vec![2, 1], Placement::Inside));
    assert_eq!(ops.len(), 9);
}

#[test]
fn insert_before_and_after() {
    let mut bridge = Bridge::new(vec![]);
    let ops = bridge
        .run(vec![
            create_text("a", 2),
            create_text("b", 3),
            create_text("c", 4),
            Instruction::InsertAfter { id: 2, m: 1 },
            Instruction::InsertBefore { id: 2, m: 1 },
            Instruction::InsertBefore { id: 2, m: 0 },
        ])
        .unwrap();
    assert_eq!(ops[6], attach(1, vec![3], Placement::After));
    assert_eq!(ops[7], attach(1, vec![2], Placement::Before));
    assert_eq!(ops[8], attach(1, vec![], Placement::Before));
}

#[test]
fn under_supply_fails_with_stack_underflow() {
    let mut bridge = Bridge::new(vec![counter()]);
    for (position, instruction) in vec![
        Instruction::AppendChildren { id: ROOT_ID, m: 2 },
        Instruction::ReplaceWith { id: ROOT_ID, m: 2 },
        Instruction::InsertBefore { id: ROOT_ID, m: 2 },
        Instruction::InsertAfter { id: ROOT_ID, m: 2 },
        Instruction::ReplacePlaceholder { path: vec![], m: 2 },
        Instruction::AppendChildren { id: 77, m: 2 },
    ]
    .into_iter()
    .enumerate()
    {
        let _ = position;
        assert_eq!(
            bridge.run(vec![create_text("a", 2), instruction]),
            Err(BatchError { index: 1, kind: ErrorKind::StackUnderflow })
        );
    }
    assert_eq!(
        bridge.run(vec![Instruction::AppendChildren { id: ROOT_ID, m: 1 }]),
        Err(BatchError { index: 0, kind: ErrorKind::StackUnderflow })
    );
    assert_eq!(bridge.table.slot_count(), 1);
}

#[test]
fn stack_does_not_outlive_its_batch() {
    let mut bridge = Bridge::new(vec![]);
    bridge.run(vec![create_text("a", 2)]).unwrap();
    assert_eq!(
        bridge.run(vec![Instruction::AppendChildren { id: ROOT_ID, m: 1 }]),
        Err(BatchError { index: 0, kind: ErrorKind::StackUnderflow })
    );
    assert_eq!(
        bridge.run(vec![Instruction::PushRoot { id: 2 }, Instruction::AppendChildren { id: ROOT_ID, m: 1 }]),
        Ok(vec![attach(ROOT_HANDLE, vec![1], Placement::Inside)])
    );
}

#[test]
fn replace_with_puts_the_new_ones_in_and_removes_the_old() {
    let mut bridge = Bridge::new(vec![]);
    bridge
        .run(vec![
            Instruction::CreatePlaceholder { id: 1 },
            listen("click", 1),
            Instruction::AppendChildren { id: ROOT_ID, m: 1 },
        ])
        .unwrap();
    let ops = bridge
        .run(vec![create_text("a", 2), create_text("b", 3), Instruction::ReplaceWith { id: 1, m: 2 }])
        .unwrap();
    assert_eq!(
        ops,
        vec![
            widget(2, Blueprint::Label),
            shown(2, "a"),
            widget(3, Blueprint::Label),
            shown(3, "b"),
            attach(1, vec![3, 2], Placement::Before),
            BackendOp::Detach { handle: 1 },
        ]
    );
    assert_eq!(bridge.table.lookup_by_id(1).unwrap_err(), ErrorKind::UnboundId);
    assert!(bridge.table.get(1).is_none());
    assert_eq!(bridge.events.len(), 0);
    assert_eq!(bridge.table.lookup_by_id(3).unwrap().handle, 3);
}

#[test]
fn replace_placeholder_goes_by_path() {
    let mut bridge = Bridge::new(vec![counter()]);
    let ops = bridge
        .run(vec![
            load("counter", 0),
            create_text("instead", 7),
            Instruction::ReplacePlaceholder { path: vec![0], m: 1 },
            Instruction::AppendChildren { id: ROOT_ID, m: 1 },
        ])
        .unwrap();
    let tail: Vec<BackendOp> = ops[ops.len() - 3..].to_vec();
    assert_eq!(
        tail,
        vec![
            attach(2, vec![4], Placement::Before),
            BackendOp::Detach { handle: 2 },
            attach(ROOT_HANDLE, vec![1], Placement::Inside),
        ]
    );
    assert_eq!(bridge.table.handle_at(0, &vec![0, 0]), None);
    assert!(bridge.table.get(2).is_none());
    assert_eq!(bridge.table.handle_at(0, &vec![0, 1]), Some(3));
    assert_eq!(
        bridge.run(vec![load("counter", 0), Instruction::ReplacePlaceholder { path: vec![5], m: 0 }]),
        Err(BatchError { index: 1, kind: ErrorKind::UnknownPath })
    );
}

#[test]
fn remove_detaches_and_cascades() {
    let mut bridge = Bridge::new(vec![]);
    bridge
        .run(vec![create_text("a", 3), create_text("b", 4), listen("click", 3), listen("input", 3), listen("click", 4)])
        .unwrap();
    let ops = bridge.run(vec![Instruction::Remove { id: 3 }]).unwrap();
    assert_eq!(ops, vec![BackendOp::Detach { handle: 1 }]);
    assert_eq!(bridge.table.lookup_by_id(3).unwrap_err(), ErrorKind::UnboundId);
    assert_eq!(bridge.events.len(), 1);
    assert_eq!(bridge.events.get(0).unwrap().id, 4);
    assert_eq!(
        bridge.run(vec![set_text(3, "x")]),
        Err(BatchError { index: 0, kind: ErrorKind::UnboundId })
    );
    assert_eq!(
        bridge.run(vec![Instruction::Remove { id: 3 }]),
        Err(BatchError { index: 0, kind: ErrorKind::UnboundId })
    );
}

#[test]
fn removed_id_can_be_bound_anew() {
    let mut bridge = Bridge::new(vec![]);
    bridge.run(vec![create_text("a", 3)]).unwrap();
    let ops = bridge.run(vec![Instruction::Remove { id: 3 }, create_text("b", 3)]).unwrap();
    assert_eq!(
        ops,
        vec![BackendOp::Detach { handle: 1 }, widget(1, Blueprint::Label), shown(1, "b")]
    );
    assert_eq!(bridge.table.lookup_by_id(3).unwrap().handle, 1);
}

#[test]
fn push_root_pushes_the_bound_widget() {
    let mut bridge = Bridge::new(vec![]);
    bridge.run(vec![Instruction::CreatePlaceholder { id: 1 }, create_text("a", 2)]).unwrap();
    let ops = bridge
        .run(vec![
            Instruction::PushRoot { id: 2 },
            Instruction::PushRoot { id: 1 },
            Instruction::PushRoot { id: 2 },
            Instruction::AppendChildren { id: 1, m: 1 },
            Instruction::AppendChildren { id: ROOT_ID, m: 2 },
        ])
        .unwrap();
    assert_eq!(
        ops,
        vec![attach(1, vec![2], Placement::Inside), attach(ROOT_HANDLE, vec![1, 2], Placement::Inside)]
    );
}

#[test]
fn instruction_names() {
    assert_eq!(load("t", 0).name(), "LoadTemplate");
    assert_eq!(Instruction::CreatePlaceholder { id: 1 }.name(), "CreatePlaceholder");
    assert_eq!(create_text("a", 1).name(), "CreateTextNode");
    assert_eq!(Instruction::AssignId { path: vec![], id: 1 }.name(), "AssignId");
    assert_eq!(
        Instruction::HydrateText { path: vec![], value: String::new(), id: 1 }.name(),
        "HydrateText"
    );
    assert_eq!(set_text(1, "").name(), "SetText");
    assert_eq!(
        Instruction::SetAttribute { id: 1, name: String::new(), value: String::new(), ns: None }.name(),
        "SetAttribute"
    );
    assert_eq!(listen("click", 1).name(), "NewEventListener");
    assert_eq!(
        Instruction::RemoveEventListener { name: String::new(), id: 1 }.name(),
        "RemoveEventListener"
    );
    assert_eq!(Instruction::AppendChildren { id: 1, m: 0 }.name(), "AppendChildren");
    assert_eq!(Instruction::ReplaceWith { id: 1, m: 0 }.name(), "ReplaceWith");
    assert_eq!(Instruction::ReplacePlaceholder { path: vec![], m: 0 }.name(), "ReplacePlaceholder");
    assert_eq!(Instruction::InsertBefore { id: 1, m: 0 }.name(), "InsertBefore");
    assert_eq!(Instruction::InsertAfter { id: 1, m: 0 }.name(), "InsertAfter");
    assert_eq!(Instruction::Remove { id: 1 }.name(), "Remove");
    assert_eq!(Instruction::PushRoot { id: 1 }.name(), "PushRoot");
}

#[test]
fn error_names() {
    assert_eq!(ErrorKind::UnknownPath.name(), "UnknownPath");
    assert_eq!(ErrorKind::DuplicateId.name(), "DuplicateId");
    assert_eq!(ErrorKind::UnboundId.name(), "UnboundId");
    assert_eq!(ErrorKind::MalformedLength.name(), "MalformedLength");
    assert_eq!(ErrorKind::StackUnderflow.name(), "StackUnderflow");
}
