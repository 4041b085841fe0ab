//! The task-graph data model: tasks, the dependency relation, hash
//! instructions, and the resolver's error type, together with their
//! mathematical views.

use vstd::prelude::*;

verus! {

/// One unit of build work: a stable identifier, an optional precomputed
/// content hash, and the output-path patterns the task declares.
pub struct Task {
    pub id: String,
    pub hash: Option<String>,
    pub outputs: Vec<String>,
}

/// Mathematical image of a `Task`, with strings as character sequences.
pub ghost struct TaskView {
    pub id: Seq<char>,
    pub hash: Option<Seq<char>>,
    pub outputs: Seq<Seq<char>>,
}

impl View for Task {
    type V = TaskView;

    open spec fn view(&self) -> TaskView {
        TaskView { id: self.id@, hash: self.hash.deep_view(), outputs: self.outputs.deep_view() }
    }
}

/// One entry of the dependency relation: a task id and the ids of the
/// tasks it depends on, in declaration order.
pub struct DependencyEntry {
    pub id: String,
    pub deps: Vec<String>,
}

/// The resolved dependency graph for one build invocation. Both fields are
/// association lists with unique ids (see [`TaskGraph::wf`]); at the
/// specification level they are read as maps.
pub struct TaskGraph {
    pub tasks: Vec<Task>,
    pub dependencies: Vec<DependencyEntry>,
}

/// Mathematical image of a `TaskGraph`: the two association lists read as
/// maps from task id to task record and to ordered dependency-id list.
pub ghost struct GraphView {
    pub tasks: Map<Seq<char>, TaskView>,
    pub dependencies: Map<Seq<char>, Seq<Seq<char>>>,
}

/// The task map that an association list of tasks denotes: later entries
/// win, though well-formed graphs have no duplicate ids at all.
pub open spec fn task_map_of(tasks: Seq<Task>) -> Map<Seq<char>, TaskView>
    decreases tasks.len(),
{
    if tasks.len() == 0 {
        Map::empty()
    } else {
        task_map_of(tasks.drop_last()).insert(tasks.last()@.id, tasks.last()@)
    }
}

/// The dependency map that an association list of entries denotes.
pub open spec fn dep_map_of(entries: Seq<DependencyEntry>) -> Map<Seq<char>, Seq<Seq<char>>>
    decreases entries.len(),
{
    if entries.len() == 0 {
        Map::empty()
    } else {
        dep_map_of(entries.drop_last()).insert(
            entries.last().id@,
            entries.last().deps.deep_view(),
        )
    }
}

impl View for TaskGraph {
    type V = GraphView;

    open spec fn view(&self) -> GraphView {
        GraphView { tasks: task_map_of(self.tasks@), dependencies: dep_map_of(self.dependencies@) }
    }
}

impl TaskGraph {
    /// Well-formedness: ids are unique in both association lists, so each
    /// list denotes its map unambiguously.
    pub open spec fn wf(&self) -> bool {
        &&& forall|i: int, j: int|
            0 <= i < j < self.tasks@.len() ==> self.tasks@[i]@.id != self.tasks@[j]@.id
        &&& forall|i: int, j: int|
            0 <= i < j < self.dependencies@.len() ==> self.dependencies@[i].id@
                != self.dependencies@[j].id@
    }
}

/// A key no element of the task list carries is unbound in the denoted
/// map.
pub proof fn lemma_task_map_absent(tasks: Seq<Task>, k: Seq<char>)
    requires
        forall|i: int| 0 <= i < tasks.len() ==> tasks[i]@.id != k,
    ensures
        !task_map_of(tasks).contains_key(k),
    decreases tasks.len(),
{
    if tasks.len() > 0 {
        let prefix = tasks.drop_last();
        assert(forall|i: int| 0 <= i < prefix.len() ==> prefix[i] == tasks[i]);
        lemma_task_map_absent(prefix, k);
        assert(tasks.last()@.id != k);
    }
}

/// Under unique ids, the denoted task map binds each element's id to that
/// element.
pub proof fn lemma_task_map_found(tasks: Seq<Task>, i: int)
    requires
        forall|p: int, q: int| 0 <= p < q < tasks.len() ==> tasks[p]@.id != tasks[q]@.id,
        0 <= i < tasks.len(),
    ensures
        task_map_of(tasks).contains_key(tasks[i]@.id),
        task_map_of(tasks)[tasks[i]@.id] == tasks[i]@,
    decreases tasks.len(),
{
    let prefix = tasks.drop_last();
    assert(forall|p: int| 0 <= p < prefix.len() ==> prefix[p] == tasks[p]);
    if i < tasks.len() - 1 {
        lemma_task_map_found(prefix, i);
        assert(tasks.last()@.id != tasks[i]@.id);
    }
}

/// A key no entry of the dependency list carries is unbound in the denoted
/// map.
pub proof fn lemma_dep_map_absent(entries: Seq<DependencyEntry>, k: Seq<char>)
    requires
        forall|i: int| 0 <= i < entries.len() ==> entries[i].id@ != k,
    ensures
        !dep_map_of(entries).contains_key(k),
    decreases entries.len(),
{
    if entries.len() > 0 {
        let prefix = entries.drop_last();
        assert(forall|i: int| 0 <= i < prefix.len() ==> prefix[i] == entries[i]);
        lemma_dep_map_absent(prefix, k);
        assert(entries.last().id@ != k);
    }
}

/// Under unique ids, the denoted dependency map binds each entry's id to
/// that entry's dependency list.
pub proof fn lemma_dep_map_found(entries: Seq<DependencyEntry>, i: int)
    requires
        forall|p: int, q: int| 0 <= p < q < entries.len() ==> entries[p].id@ != entries[q].id@,
        0 <= i < entries.len(),
    ensures
        dep_map_of(entries).contains_key(entries[i].id@),
        dep_map_of(entries)[entries[i].id@] == entries[i].deps.deep_view(),
    decreases entries.len(),
{
    let prefix = entries.drop_last();
    assert(forall|p: int| 0 <= p < prefix.len() ==> prefix[p] == entries[p]);
    if i < entries.len() - 1 {
        lemma_dep_map_found(prefix, i);
        assert(entries.last().id@ != entries[i].id@);
    }
}

/// Linear lookup of a task record by id: under unique ids it realizes the
/// task map.
pub fn find_task<'a>(tasks: &'a Vec<Task>, id: &String) -> (r: Option<&'a Task>)
    requires
        forall|i: int, j: int| 0 <= i < j < tasks@.len() ==> tasks@[i]@.id != tasks@[j]@.id,
    ensures
        match r {
            Some(t) => task_map_of(tasks@).contains_key(id@) && t@ == task_map_of(tasks@)[id@]
                && t@.id == id@,
            None => !task_map_of(tasks@).contains_key(id@),
        },
{
    let n = tasks.len();
    let mut i: usize = 0;
    while i < n
        invariant
            i <= n,
            n == tasks@.len(),
            forall|p: int, q: int| 0 <= p < q < tasks@.len() ==> tasks@[p]@.id != tasks@[q]@.id,
            forall|j: int| 0 <= j < i ==> tasks@[j]@.id != id@,
        decreases n - i,
    {
        if tasks[i].id == *id {
            proof {
                lemma_task_map_found(tasks@, i as int);
            }
            return Some(&tasks[i]);
        }
        i += 1;
    }
    proof {
        lemma_task_map_absent(tasks@, id@);
    }
    None
}

/// Linear lookup of a dependency list by task id: under unique ids it
/// realizes the dependency map.
pub fn find_deps<'a>(entries: &'a Vec<DependencyEntry>, id: &String) -> (r: Option<
    &'a Vec<String>,
>)
    requires
        forall|i: int, j: int| 0 <= i < j < entries@.len() ==> entries@[i].id@ != entries@[j].id@,
    ensures
        match r {
            Some(d) => dep_map_of(entries@).contains_key(id@) && d.deep_view() == dep_map_of(
                entries@,
            )[id@],
            None => !dep_map_of(entries@).contains_key(id@),
        },
{
    let n = entries.len();
    let mut i: usize = 0;
    while i < n
        invariant
            i <= n,
            n == entries@.len(),
            forall|p: int, q: int|
                0 <= p < q < entries@.len() ==> entries@[p].id@ != entries@[q].id@,
            forall|j: int| 0 <= j < i ==> entries@[j].id@ != id@,
        decreases n - i,
    {
        if entries[i].id == *id {
            proof {
                lemma_dep_map_found(entries@, i as int);
            }
            return Some(&entries[i].deps);
        }
        i += 1;
    }
    proof {
        lemma_dep_map_absent(entries@, id@);
    }
    None
}

/// An atomic fact to be folded into a task's cache key. The first field of
/// either variant is the caller-supplied marker naming the input
/// declaration that produced the instruction; it is carried through
/// unchanged.
#[derive(Debug, Clone, PartialEq, Eq)]
pub enum HashInstruction {
    /// Depend on the dependency's own precomputed content hash, a proxy
    /// for everything that hash already captures, its outputs included.
    TaskHash(String, String),
    /// Depend on the literal contents matching these output patterns; used
    /// when no precomputed hash is available yet.
    TaskOutput(String, Vec<String>),
}

/// Mathematical image of a `HashInstruction`.
pub ghost enum HashInstructionView {
    TaskHash(Seq<char>, Seq<char>),
    TaskOutput(Seq<char>, Seq<Seq<char>>),
}

impl View for HashInstruction {
    type V = HashInstructionView;

    open spec fn view(&self) -> HashInstructionView {
        match self {
            HashInstruction::TaskHash(marker, hash) => HashInstructionView::TaskHash(
                marker@,
                hash@,
            ),
            HashInstruction::TaskOutput(marker, outputs) => HashInstructionView::TaskOutput(
                marker@,
                outputs.deep_view(),
            ),
        }
    }
}

/// Why a resolution call failed. Resolution never produces a partial
/// result: on failure the whole in-progress instruction list is discarded.
#[derive(Debug, Clone, PartialEq, Eq)]
pub enum ResolveError {
    /// A dependency id listed in the dependency map has no task record: a
    /// broken graph invariant upstream, carried to the caller with the
    /// offending id.
    MissingTask(String),
    /// The traversal ran deeper than the graph has tasks, which an acyclic
    /// graph cannot do: the guard that fails fast on a cyclic graph
    /// instead of overflowing the call stack.
    DepthExceeded,
}

/// Mathematical image of a `ResolveError`.
pub ghost enum ResolveErrorView {
    MissingTask(Seq<char>),
    DepthExceeded,
}

impl View for ResolveError {
    type V = ResolveErrorView;

    open spec fn view(&self) -> ResolveErrorView {
        match self {
            ResolveError::MissingTask(id) => ResolveErrorView::MissingTask(id@),
            ResolveError::DepthExceeded => ResolveErrorView::DepthExceeded,
        }
    }
}

} // verus!
