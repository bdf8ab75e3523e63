//! The ingest tasks, their dependency edges, the gates through which
//! producers signal completion, and the guard that keeps runs one at a time.
use vstd::prelude::*;

verus! {

/// The twelve row shapes of the dump, one ingest task each.
#[derive(Debug, Clone, Copy, PartialEq, Eq, Structural)]
pub enum Entity {
    Author,
    Book,
    Sequence,
    Genre,
    BookAuthor,
    Translator,
    SequenceInfo,
    BookAnnotation,
    BookAnnotationPic,
    AuthorAnnotation,
    AuthorAnnotationPic,
    BookGenre,
}

/// The state of a producer's gate.
#[derive(Debug, Clone, Copy, PartialEq, Eq, Structural)]
pub enum GateStatus {
    Pending,
    Success,
    Failed,
}

/// The dump file that a task reads.
pub open spec fn dump_file_of(e: Entity) -> Seq<char> {
    match e {
        Entity::Author => "lib.libavtorname.sql"@,
        Entity::Book => "lib.libbook.sql"@,
        Entity::Sequence => "lib.libseqname.sql"@,
        Entity::Genre => "lib.libgenrelist.sql"@,
        Entity::BookAuthor => "lib.libavtor.sql"@,
        Entity::Translator => "lib.libtranslator.sql"@,
        Entity::SequenceInfo => "lib.libseq.sql"@,
        Entity::BookAnnotation => "lib.b.annotations.sql"@,
        Entity::BookAnnotationPic => "lib.b.annotations_pics.sql"@,
        Entity::AuthorAnnotation => "lib.a.annotations.sql"@,
        Entity::AuthorAnnotationPic => "lib.a.annotations_pics.sql"@,
        Entity::BookGenre => "lib.libgenre.sql"@,
    }
}

/// The producers whose gates a task waits on before it starts.
pub open spec fn deps_of(e: Entity) -> Seq<Entity> {
    match e {
        Entity::BookAuthor => seq![Entity::Author, Entity::Book],
        Entity::Translator => seq![Entity::Author, Entity::Book],
        Entity::SequenceInfo => seq![Entity::Book, Entity::Sequence],
        Entity::BookAnnotation => seq![Entity::Book],
        Entity::BookAnnotationPic => seq![Entity::BookAnnotation],
        Entity::AuthorAnnotation => seq![Entity::Author],
        Entity::AuthorAnnotationPic => seq![Entity::AuthorAnnotation],
        Entity::BookGenre => seq![Entity::Genre, Entity::Book],
        _ => seq![],
    }
}

/// Whether a task publishes its outcome through a gate of its own.
pub open spec fn owns_gate_of(e: Entity) -> bool {
    match e {
        Entity::Author | Entity::Book | Entity::Sequence | Entity::Genre
        | Entity::BookAnnotation | Entity::AuthorAnnotation => true,
        _ => false,
    }
}

/// The position of a task in launch order.
pub open spec fn launch_index(e: Entity) -> int {
    match e {
        Entity::Author => 0,
        Entity::Book => 1,
        Entity::Sequence => 2,
        Entity::Genre => 3,
        Entity::BookAuthor => 4,
        Entity::Translator => 5,
        Entity::SequenceInfo => 6,
        Entity::BookAnnotation => 7,
        Entity::BookAnnotationPic => 8,
        Entity::AuthorAnnotation => 9,
        Entity::AuthorAnnotationPic => 10,
        Entity::BookGenre => 11,
    }
}

/// Every dependency is a producer with a gate, and comes before the task in
/// launch order: the waits cannot form a cycle.
pub proof fn lemma_dependencies_are_gated_and_acyclic(e: Entity, i: int)
    requires
        0 <= i < deps_of(e).len(),
    ensures
        owns_gate_of(deps_of(e)[i]),
        launch_index(deps_of(e)[i]) < launch_index(e),
{
}

impl Entity {
    /// The name of the dump file that the ingest of this entity reads.
    pub fn dump_file(self) -> (r: &'static str)
        ensures
            r@ == dump_file_of(self),
    {
        match self {
            Entity::Author => "lib.libavtorname.sql",
            Entity::Book => "lib.libbook.sql",
            Entity::Sequence => "lib.libseqname.sql",
            Entity::Genre => "lib.libgenrelist.sql",
            Entity::BookAuthor => "lib.libavtor.sql",
            Entity::Translator => "lib.libtranslator.sql",
            Entity::SequenceInfo => "lib.libseq.sql",
            Entity::BookAnnotation => "lib.b.annotations.sql",
            Entity::BookAnnotationPic => "lib.b.annotations_pics.sql",
            Entity::AuthorAnnotation => "lib.a.annotations.sql",
            Entity::AuthorAnnotationPic => "lib.a.annotations_pics.sql",
            Entity::BookGenre => "lib.libgenre.sql",
        }
    }

    /// The producers that the ingest of this entity waits for.
    pub fn deps(self) -> (r: Vec<Entity>)
        ensures
            r@ == deps_of(self),
    {
        let r = match self {
            Entity::BookAuthor => vec![Entity::Author, Entity::Book],
            Entity::Translator => vec![Entity::Author, Entity::Book],
            Entity::SequenceInfo => vec![Entity::Book, Entity::Sequence],
            Entity::BookAnnotation => vec![Entity::Book],
            Entity::BookAnnotationPic => vec![Entity::BookAnnotation],
            Entity::AuthorAnnotation => vec![Entity::Author],
            Entity::AuthorAnnotationPic => vec![Entity::AuthorAnnotation],
            Entity::BookGenre => vec![Entity::Genre, Entity::Book],
            _ => vec![],
        };
        assert(r@ =~= deps_of(self));
        r
    }

    /// Whether the ingest of this entity publishes its outcome through a gate.
    pub fn owns_gate(self) -> (r: bool)
        ensures
            r == owns_gate_of(self),
    {
        match self {
            Entity::Author | Entity::Book | Entity::Sequence | Entity::Genre
            | Entity::BookAnnotation | Entity::AuthorAnnotation => true,
            _ => false,
        }
    }
}

/// The twelve tasks in launch order.
pub open spec fn all_entities_spec() -> Seq<Entity> {
    seq![
        Entity::Author, Entity::Book, Entity::Sequence, Entity::Genre,
        Entity::BookAuthor, Entity::Translator, Entity::SequenceInfo,
        Entity::BookAnnotation, Entity::BookAnnotationPic,
        Entity::AuthorAnnotation, Entity::AuthorAnnotationPic, Entity::BookGenre,
    ]
}

/// The twelve tasks, in launch order; each appears once.
pub fn all_entities() -> (r: Vec<Entity>)
    ensures
        r@ == all_entities_spec(),
        forall|i: int| 0 <= i < r@.len() ==> launch_index(#[trigger] r@[i]) == i,
        forall|e: Entity| r@.contains(e),
{
    let r = vec![
        Entity::Author, Entity::Book, Entity::Sequence, Entity::Genre,
        Entity::BookAuthor, Entity::Translator, Entity::SequenceInfo,
        Entity::BookAnnotation, Entity::BookAnnotationPic,
        Entity::AuthorAnnotation, Entity::AuthorAnnotationPic, Entity::BookGenre,
    ];
    assert(r@ =~= all_entities_spec());
    assert forall|e: Entity| r@.contains(e) by {
        assert(r@[launch_index(e)] == e);
    }
    r
}

/// The status a producer publishes when its task ends: `Success` when it
/// succeeded, `Failed` otherwise, the same for every producer.
pub open spec fn published_status_of(succeeded: bool) -> GateStatus {
    if succeeded {
        GateStatus::Success
    } else {
        GateStatus::Failed
    }
}

/// The status a producer publishes when its task ends.
pub fn published_status(succeeded: bool) -> (r: GateStatus)
    ensures
        r == published_status_of(succeeded),
        r != GateStatus::Pending,
{
    if succeeded {
        GateStatus::Success
    } else {
        GateStatus::Failed
    }
}

/// Whether a task may start: every gate it waits on has left `Pending`.
/// A failed producer does not hold its dependents back.
pub fn deps_ready(statuses: &[GateStatus]) -> (r: bool)
    ensures
        r == (forall|i: int| 0 <= i < statuses@.len() ==> statuses@[i] != GateStatus::Pending),
{
    let mut i: usize = 0;
    while i < statuses.len()
        invariant
            i <= statuses@.len(),
            forall|j: int| 0 <= j < i ==> statuses@[j] != GateStatus::Pending,
        decreases statuses@.len() - i,
    {
        if statuses[i] == GateStatus::Pending {
            return false;
        }
        i = i + 1;
    }
    true
}

/// Whether a whole run succeeded: every task succeeded.
pub fn all_succeeded(outcomes: &[bool]) -> (r: bool)
    ensures
        r == (forall|i: int| 0 <= i < outcomes@.len() ==> outcomes@[i]),
{
    let mut i: usize = 0;
    while i < outcomes.len()
        invariant
            i <= outcomes@.len(),
            forall|j: int| 0 <= j < i ==> outcomes@[j],
        decreases outcomes@.len() - i,
    {
        if !outcomes[i] {
            return false;
        }
        i = i + 1;
    }
    true
}

/// The gates of the six producers. Each starts `Pending` and is set once,
/// by the task that owns it.
pub struct Gates {
    statuses: Vec<GateStatus>,
}

/// The slot of a producer's gate.
pub open spec fn gate_slot(e: Entity) -> int {
    match e {
        Entity::Author => 0,
        Entity::Book => 1,
        Entity::Sequence => 2,
        Entity::Genre => 3,
        Entity::BookAnnotation => 4,
        Entity::AuthorAnnotation => 5,
        _ => -1,
    }
}

fn slot(e: Entity) -> (r: usize)
    requires
        owns_gate_of(e),
    ensures
        r == gate_slot(e),
        r < 6,
{
    match e {
        Entity::Author => 0,
        Entity::Book => 1,
        Entity::Sequence => 2,
        Entity::Genre => 3,
        Entity::BookAnnotation => 4,
        _ => 5,
    }
}

impl Gates {
    pub closed spec fn wf(&self) -> bool {
        self.statuses@.len() == 6
    }

    /// The status of a producer's gate.
    pub closed spec fn status(&self, e: Entity) -> GateStatus {
        self.statuses@[gate_slot(e)]
    }

    /// All six gates, `Pending`.
    pub fn new() -> (r: Gates)
        ensures
            r.wf(),
            forall|e: Entity| owns_gate_of(e) ==> #[trigger] r.status(e) == GateStatus::Pending,
    {
        Gates { statuses: vec![GateStatus::Pending; 6] }
    }

    /// Reads a producer's gate.
    pub fn poll(&self, e: Entity) -> (r: GateStatus)
        requires
            self.wf(),
            owns_gate_of(e),
        ensures
            r == self.status(e),
    {
        self.statuses[slot(e)]
    }

    /// Publishes the outcome of a producer's task; the other gates keep
    /// their status. A gate is set once: it must still be `Pending`.
    pub fn publish(&mut self, e: Entity, succeeded: bool)
        requires
            old(self).wf(),
            owns_gate_of(e),
            old(self).status(e) == GateStatus::Pending,
        ensures
            final(self).wf(),
            final(self).status(e) == published_status_of(succeeded),
            forall|f: Entity| owns_gate_of(f) && f != e ==> #[trigger] final(self).status(f) == old(self).status(f),
    {
        let i = slot(e);
        self.statuses.set(i, published_status(succeeded));
        assert forall|f: Entity| owns_gate_of(f) && f != e implies gate_slot(f) != gate_slot(e) by {
        }
    }

    /// Whether a task may start: every gate it waits on has left `Pending`.
    pub fn ready_for(&self, e: Entity) -> (r: bool)
        requires
            self.wf(),
        ensures
            r == (forall|i: int| 0 <= i < deps_of(e).len() ==> self.status(#[trigger] deps_of(e)[i]) != GateStatus::Pending),
    {
        let deps = e.deps();
        let mut statuses: Vec<GateStatus> = Vec::new();
        let mut i: usize = 0;
        while i < deps.len()
            invariant
                self.wf(),
                deps@ == deps_of(e),
                i <= deps@.len(),
                statuses@.len() == i,
                forall|j: int| 0 <= j < i ==> statuses@[j] == self.status(#[trigger] deps@[j]),
            decreases deps@.len() - i,
        {
            proof {
                lemma_dependencies_are_gated_and_acyclic(e, i as int);
            }
            statuses.push(self.poll(deps[i]));
            i = i + 1;
        }
        let r = deps_ready(statuses.as_slice());
        assert(r == (forall|i: int| 0 <= i < deps_of(e).len() ==> self.status(#[trigger] deps_of(e)[i]) != GateStatus::Pending)) by {
            if r {
                assert forall|i: int| 0 <= i < deps_of(e).len() implies self.status(#[trigger] deps_of(e)[i]) != GateStatus::Pending by {
                    assert(statuses@[i] == self.status(deps@[i]));
                }
            } else {
                let k = choose|k: int| 0 <= k < statuses@.len() && statuses@[k] == GateStatus::Pending;
                assert(self.status(deps_of(e)[k]) == GateStatus::Pending);
            }
        }
        r
    }
}

/// A second run was asked for while one is in progress.
#[derive(Debug, Clone, Copy, PartialEq, Eq, Structural)]
pub struct AlreadyRunning;

/// An acquisition of the guard, from whether a run was in progress before:
/// whether it is granted, and whether a run is in progress after.
pub open spec fn acquire_outcome(running: bool) -> (bool, bool) {
    (!running, true)
}

/// Whether a run is in progress; at most one run holds the guard.
pub struct RunGuard {
    running: bool,
}

impl RunGuard {
    pub closed spec fn is_running(&self) -> bool {
        self.running
    }

    /// A guard with no run in progress.
    pub fn new() -> (r: RunGuard)
        ensures
            !r.is_running(),
    {
        RunGuard { running: false }
    }

    /// Starts a run when none is in progress; otherwise refuses at once and
    /// changes nothing.
    pub fn try_acquire(&mut self) -> (r: Result<(), AlreadyRunning>)
        ensures
            (r is Ok, final(self).is_running()) == acquire_outcome(old(self).is_running()),
    {
        if self.running {
            Err(AlreadyRunning)
        } else {
            self.running = true;
            Ok(())
        }
    }

    /// Ends the run in progress.
    pub fn release(&mut self)
        ensures
            !final(self).is_running(),
    {
        self.running = false;
    }
}

/// Of two acquisitions with no release between them, starting from an idle
/// guard, exactly the first is granted; a refused acquisition leaves the
/// guard as it was.
pub proof fn lemma_at_most_one_run(running: bool)
    ensures
        !running ==> acquire_outcome(running).0 && !acquire_outcome(acquire_outcome(running).1).0,
        !acquire_outcome(running).0 ==> acquire_outcome(running).1 == running,
{
}

/// Why a task or a run did not complete.
#[derive(Debug, Clone, PartialEq, Eq)]
pub enum UpdateError {
    AlreadyRunning,
    /// The dump could not be fetched.
    Network,
    /// The dump server answered with a non-success status.
    HttpStatus(u16),
    /// The local copy of the dump could not be written or read.
    Disk,
    /// The store refused a statement.
    Db,
    /// A cell did not have the kind its column needs.
    MapperMismatch(usize),
}

/// The address of a dump: `{base}/sql/{file}.gz`.
pub fn dump_url(base: &str, file: &str) -> (r: String)
    ensures
        r@ == base@ + "/sql/"@ + file@ + ".gz"@,
{
    let mut r = String::from_str(base);
    r.append("/sql/");
    r.append(file);
    r.append(".gz");
    r
}

} // verus!
