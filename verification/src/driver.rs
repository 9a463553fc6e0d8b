//! The reconciliation driver: the one owner of the template registry,
//! the node table and the event registry, and the two things that
//! happen to them.
//!
//! A build sets the bridge up from a full description of the interface.
//! A patch applies the instructions that an event has caused. Both are
//! answered with operations for the retained tree; the driver calls
//! neither the virtual side nor the native side itself.

use vstd::prelude::*;
use crate::backend::{lemma_op_views_push, op_views, BackendOp, OpView};
use crate::error::BatchError;
use crate::events::{listener_of, EventRegistry, ListenerView};
use crate::instruction::Instruction;
use crate::machine::{interpret, run, start};
use crate::registry::{instantiated, template_index, TemplateRegistry};
use crate::table::{root_record, NodeTable, RecordView, ROOT_HANDLE};
use crate::template::Template;

verus! {

/// How the bridge is set up. There is nothing to choose yet.
#[derive(Clone, Copy, Debug, PartialEq, Eq, Structural)]
pub struct Config;

impl Default for Config {
    fn default() -> (config: Config)
        ensures
            config == Config,
    {
        Config
    }
}

/// Where an apply of the interface description comes from, as Makepad
/// tells its widgets.
#[derive(Clone, Copy, Debug, PartialEq, Eq, Structural)]
pub enum ApplyOrigin {
    /// The description was read for the first time.
    NewFromDoc,
    /// The description was changed and read again.
    UpdateFromDoc,
    /// A bare new, without a description.
    New,
    /// A step of an animation.
    Animate,
    /// The start of an animator.
    AnimatorInit,
    /// Single values laid over what is there.
    ApplyOver,
}

impl ApplyOrigin {
    /// Whether the apply is a structural one: the description itself was
    /// read, for the first time or anew. Such an apply is what starts a
    /// build.
    pub fn is_from_doc(&self) -> (structural: bool)
        ensures
            structural == (*self == ApplyOrigin::NewFromDoc || *self == ApplyOrigin::UpdateFromDoc),
    {
        match self {
            ApplyOrigin::NewFromDoc => true,
            ApplyOrigin::UpdateFromDoc => true,
            _ => false,
        }
    }
}

/// Where the driver stands.
#[derive(Clone, Copy, Debug, PartialEq, Eq, Structural)]
pub enum Phase {
    /// Nothing has been built.
    Uninitialized,
    /// An interface is up and takes patches.
    Live,
}

/// The state of the driver, as plain values.
pub struct DriverView {
    pub phase: Phase,
    pub templates: Seq<Template>,
    pub slots: Seq<Option<RecordView>>,
    pub bindings: Seq<ListenerView>,
}

/// What a build gives back.
pub struct BuildReport {
    /// What the retained tree has to carry out, in order.
    pub ops: Vec<BackendOp>,
    /// The instruction at which the first batch was given up, if it was.
    pub failure: Option<BatchError>,
}

/// The templates once the first `n` of `templates` are registered in
/// order; of two with one name the first stays.
pub open spec fn registered_all(templates: Seq<Template>, n: int) -> Seq<Template>
    decreases n,
{
    if n <= 0 || n > templates.len() {
        Seq::empty()
    } else {
        let before = registered_all(templates, n - 1);
        match template_index(before, templates[n - 1].name@) {
            Some(_) => before,
            None => before.push(templates[n - 1]),
        }
    }
}

/// What instantiating the first `n` registered templates under the root
/// view gives.
pub open spec fn instantiated_all(registry: Seq<Template>, slots: Seq<Option<RecordView>>, n: int) -> (
    Seq<Option<RecordView>>,
    Seq<OpView>,
)
    decreases n,
{
    if n <= 0 || n > registry.len() {
        (slots, Seq::empty())
    } else {
        let (before, ops) = instantiated_all(registry, slots, n - 1);
        let (after, more) = instantiated(
            before,
            (n - 1) as usize,
            ROOT_HANDLE,
            registry[n - 1].roots@,
            registry[n - 1].roots@.len() as int,
        );
        (after, ops + more)
    }
}

/// What a build gives: the state it leaves, the operations it asks for,
/// and the failure of the first batch, if it failed.
///
/// Everything from before is dropped and the root view cleared. The
/// templates are registered and instantiated, and then the batch is
/// interpreted. A batch that fails is given up alone: what the
/// templates made stays.
pub open spec fn built(templates: Seq<Template>, batch: Seq<Instruction>) -> (
    DriverView,
    Seq<OpView>,
    Option<BatchError>,
) {
    let registry = registered_all(templates, templates.len() as int);
    let (slots, made) = instantiated_all(registry, seq![Some(root_record())], registry.len() as int);
    let cleared = seq![OpView::ClearRoot] + made;
    match run(registry, start(slots, Seq::empty()), batch, batch.len() as int) {
        Ok(m) => (
            DriverView { phase: Phase::Live, templates: registry, slots: m.slots, bindings: m.bindings },
            cleared + m.ops,
            None,
        ),
        Err(e) => (
            DriverView { phase: Phase::Live, templates: registry, slots, bindings: Seq::empty() },
            cleared,
            Some(e),
        ),
    }
}

/// What a patch gives: the state it leaves, and the operations it asks
/// for or the failure.
///
/// A batch that runs through is followed by one request to draw again,
/// unless it is empty: then nothing is asked at all. A batch that fails
/// changes nothing and asks nothing. Before the first build there is
/// nothing to patch: the batch is left aside.
pub open spec fn patched(d: DriverView, batch: Seq<Instruction>) -> (DriverView, Result<Seq<OpView>, BatchError>) {
    if d.phase == Phase::Uninitialized {
        (d, Ok(Seq::empty()))
    } else {
        match run(d.templates, start(d.slots, d.bindings), batch, batch.len() as int) {
            Ok(m) => (
                DriverView {
                    phase: d.phase,
                    templates: d.templates,
                    slots: m.slots,
                    bindings: m.bindings,
                },
                Ok(
                    if batch.len() == 0 {
                        m.ops
                    } else {
                        m.ops.push(OpView::RequestRedraw)
                    },
                ),
            ),
            Err(e) => (d, Err(e)),
        }
    }
}

/// The reconciliation driver.
pub struct Driver {
    config: Config,
    phase: Phase,
    registry: TemplateRegistry,
    table: NodeTable,
    events: EventRegistry,
}

impl View for Driver {
    type V = DriverView;

    closed spec fn view(&self) -> DriverView {
        DriverView {
            phase: self.phase,
            templates: self.registry@,
            slots: self.table@,
            bindings: self.events@,
        }
    }
}

impl Driver {
    /// The invariant: that of the three components.
    pub closed spec fn wf(&self) -> bool {
        self.registry.wf() && self.table.wf() && self.events.wf()
    }

    /// A driver that has built nothing yet.
    pub fn new(config: Config) -> (driver: Driver)
        ensures
            driver@ == (DriverView {
                phase: Phase::Uninitialized,
                templates: Seq::empty(),
                slots: seq![Some(root_record())],
                bindings: Seq::empty(),
            }),
            driver.wf(),
    {
        Driver {
            config,
            phase: Phase::Uninitialized,
            registry: TemplateRegistry::new(),
            table: NodeTable::new(),
            events: EventRegistry::new(),
        }
    }

    /// Where the driver stands.
    pub fn phase(&self) -> (phase: Phase)
        ensures
            phase == self@.phase,
    {
        self.phase
    }

    /// Whether an interface is up.
    pub fn is_live(&self) -> (live: bool)
        ensures
            live == (self@.phase == Phase::Live),
    {
        match self.phase {
            Phase::Live => true,
            Phase::Uninitialized => false,
        }
    }

    /// How the driver was set up.
    pub fn config(&self) -> (config: Config)
        ensures
            config == Config,
    {
        self.config
    }

    /// The template registry.
    pub fn registry(&self) -> (registry: &TemplateRegistry)
        ensures
            registry@ == self@.templates,
            self.wf() ==> registry.wf(),
    {
        &self.registry
    }

    /// The node address table.
    pub fn table(&self) -> (table: &NodeTable)
        ensures
            table@ == self@.slots,
            self.wf() ==> table.wf(),
    {
        &self.table
    }

    /// The event binding registry.
    pub fn events(&self) -> (events: &EventRegistry)
        ensures
            events@ == self@.bindings,
            self.wf() ==> events.wf(),
    {
        &self.events
    }

    /// Builds the interface from its full description: the templates and
    /// the first batch. This is what takes a driver from uninitialized
    /// to live, and what a live driver does when the description is
    /// loaded anew.
    ///
    /// All three components are emptied first, whatever they held, and
    /// the first operation clears the root view. Then the templates are
    /// registered and instantiated under the root view, and the batch is
    /// interpreted. Where the batch fails it is given up alone: the
    /// report names the failure, and the widgets of the templates stay.
    #[verifier::loop_isolation(false)]
    pub fn build(&mut self, templates: Vec<Template>, batch: &Vec<Instruction>) -> (report: BuildReport)
        ensures
            final(self)@ == built(templates@, batch@).0,
            op_views(report.ops@) == built(templates@, batch@).1,
            report.failure == built(templates@, batch@).2,
            final(self).wf(),
    {
        let ghost given = templates@;
        let total = templates.len();
        let mut registry = TemplateRegistry::new();
        let mut table = NodeTable::new();
        let mut events = EventRegistry::new();
        let mut ops: Vec<BackendOp> = Vec::new();
        proof {
            lemma_op_views_push(ops@, BackendOp::ClearRoot);
        }
        ops.push(BackendOp::ClearRoot);
        assert(op_views(ops@) =~= seq![OpView::ClearRoot]);

        let mut templates = templates;
        let mut reversed: Vec<Template> = Vec::new();
        while templates.len() > 0
            invariant
                templates@.len() + reversed@.len() == total,
                forall|k: int| 0 <= k < templates@.len() ==> templates@[k] == given[k],
                forall|k: int| 0 <= k < reversed@.len() ==> reversed@[k] == given[total - 1 - k],
            decreases templates.len(),
        {
            match templates.pop() {
                Some(t) => {
                    reversed.push(t);
                },
                None => {},
            }
        }
        let mut n: usize = 0;
        while reversed.len() > 0
            invariant
                n + reversed@.len() == total,
                forall|k: int| 0 <= k < reversed@.len() ==> reversed@[k] == given[total - 1 - k],
                registry.wf(),
                registry@ == registered_all(given, n as int),
            decreases reversed.len(),
        {
            match reversed.pop() {
                Some(t) => {
                    assert(t == given[n as int]);
                    registry.register(t);
                    n += 1;
                },
                None => {},
            }
        }
        let ghost fresh = table@;
        let ghost cleared = op_views(ops@);
        let count = registry.len();
        let mut handle: usize = 0;
        assert(cleared + Seq::<OpView>::empty() =~= cleared);
        while handle < count
            invariant
                handle <= count,
                table.wf(),
                table@ == instantiated_all(registry@, fresh, handle as int).0,
                op_views(ops@) == cleared + instantiated_all(registry@, fresh, handle as int).1,
            decreases count - handle,
        {
            let ghost before = instantiated_all(registry@, fresh, handle as int).1;
            let mut more = registry.instantiate(handle, ROOT_HANDLE, &mut table);
            let ghost added = op_views(more@);
            append_ops(&mut ops, &mut more);
            assert((cleared + before) + added =~= cleared + (before + added));
            handle += 1;
        }
        let failure = match interpret(&registry, &mut table, &mut events, batch) {
            Ok(mut more) => {
                append_ops(&mut ops, &mut more);
                None
            },
            Err(e) => Some(e),
        };
        self.registry = registry;
        self.table = table;
        self.events = events;
        self.phase = Phase::Live;
        BuildReport { ops, failure }
    }

    /// Applies the batch that an event has caused.
    ///
    /// A batch that runs through is followed by one request to draw
    /// again. An empty batch asks for nothing, not even that: an event
    /// that changes nothing must not be seen. A batch that fails is
    /// given up: the driver is as it was, nothing is asked, and the
    /// error names the instruction. Later batches are taken as before.
    /// A driver that has built nothing yet leaves the batch aside.
    pub fn patch(&mut self, batch: &Vec<Instruction>) -> (outcome: Result<Vec<BackendOp>, BatchError>)
        requires
            old(self).wf(),
        ensures
            final(self)@ == patched(old(self)@, batch@).0,
            match patched(old(self)@, batch@).1 {
                Ok(ops) => outcome is Ok && op_views(outcome->Ok_0@) == ops,
                Err(e) => outcome == Err::<Vec<BackendOp>, BatchError>(e),
            },
            batch@.len() == 0 ==> outcome is Ok && outcome->Ok_0@.len() == 0 && final(self)@ == old(
                self,
            )@,
            final(self).wf(),
    {
        if !self.is_live() {
            return Ok(Vec::new());
        }
        match interpret(&self.registry, &mut self.table, &mut self.events, batch) {
            Ok(mut ops) => {
                if batch.len() > 0 {
                    proof {
                        lemma_op_views_push(ops@, BackendOp::RequestRedraw);
                    }
                    ops.push(BackendOp::RequestRedraw);
                } else {
                    assert(op_views(ops@).len() == ops@.len());
                }
                Ok(ops)
            },
            Err(e) => Err(e),
        }
    }

    /// Says where a native input goes: the virtual node that listens
    /// for `name` events on the widget `handle`, or `None` where no
    /// binding matches. There is at most one, so an input is forwarded
    /// at most once.
    pub fn native_input(&self, handle: usize, name: &str) -> (target: Option<u64>)
        requires
            self.wf(),
        ensures
            target == listener_of(self@.bindings, name@, handle),
    {
        self.events.find(name, handle)
    }
}

/// Moves the operations of `more` to the end of `ops`.
fn append_ops(ops: &mut Vec<BackendOp>, more: &mut Vec<BackendOp>)
    ensures
        op_views(final(ops)@) == op_views(old(ops)@) + op_views(old(more)@),
{
    ops.append(more);
    assert(op_views(ops@) =~= op_views(old(ops)@) + op_views(old(more)@));
}

} // verus!
