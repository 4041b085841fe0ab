//! The dependency-output resolver: for one task and the task graph, the
//! ordered list of hash instructions that its (optionally transitive)
//! dependencies contribute to the task's cache key.

use crate::types::{
    find_deps, find_task, GraphView, HashInstruction, HashInstructionView,
    ResolveError, ResolveErrorView, Task, TaskGraph, TaskView,
};
use vstd::prelude::*;

verus! {

/// What one dependency contributes on its own, before any transitive
/// expansion: its precomputed hash when present (which already captures
/// its outputs), else its output patterns when it declares any, else
/// nothing.
pub open spec fn dep_contribution(dep: TaskView, marker: Seq<char>) -> Seq<HashInstructionView> {
    match dep.hash {
        Some(h) => seq![HashInstructionView::TaskHash(marker, h)],
        None => if dep.outputs.len() > 0 {
            seq![HashInstructionView::TaskOutput(marker, dep.outputs)]
        } else {
            Seq::empty()
        },
    }
}

/// The resolver's meaning for one task id. A task with no entry in the
/// dependency map contributes nothing. `fuel` bounds the traversal depth:
/// it only runs out on a graph deeper than the fuel given, which for the
/// fuel [`get_dep_output`] supplies means a cyclic one.
pub open spec fn resolve_spec(
    g: GraphView,
    id: Seq<char>,
    marker: Seq<char>,
    transitive: bool,
    fuel: nat,
) -> Result<Seq<HashInstructionView>, ResolveErrorView>
    decreases fuel, 0nat,
{
    if !g.dependencies.contains_key(id) {
        Ok(Seq::empty())
    } else if fuel == 0 {
        Err(ResolveErrorView::DepthExceeded)
    } else {
        resolve_deps_spec(g, g.dependencies[id], marker, transitive, (fuel - 1) as nat)
    }
}

/// The resolver's meaning for a dependency-id list, in declared order: for
/// each dependency its own contribution, followed when `transitive` by the
/// contributions of its own dependency closure, followed by the remaining
/// dependencies. A listed id with no task record is the one
/// graph-consistency failure, and a failure anywhere discards the whole
/// list.
pub open spec fn resolve_deps_spec(
    g: GraphView,
    deps: Seq<Seq<char>>,
    marker: Seq<char>,
    transitive: bool,
    fuel: nat,
) -> Result<Seq<HashInstructionView>, ResolveErrorView>
    decreases fuel, deps.len() + 1,
{
    if deps.len() == 0 {
        Ok(Seq::empty())
    } else {
        let d = deps.first();
        if !g.tasks.contains_key(d) {
            Err(ResolveErrorView::MissingTask(d))
        } else {
            let own = dep_contribution(g.tasks[d], marker);
            let below = if transitive {
                resolve_spec(g, d, marker, transitive, fuel)
            } else {
                Ok(Seq::empty())
            };
            match below {
                Err(e) => Err(e),
                Ok(sub) => match resolve_deps_spec(g, deps.drop_first(), marker, transitive, fuel) {
                    Err(e) => Err(e),
                    Ok(rest) => Ok(own + sub + rest),
                },
            }
        }
    }
}

/// A dependency whose hash is already computed contributes exactly one
/// `TaskHash` instruction carrying that hash, and never a `TaskOutput`,
/// whether or not it also declares outputs: the hash is defined to already
/// capture them.
pub proof fn lemma_hashed_dep_contribution(dep: TaskView, marker: Seq<char>)
    requires
        dep.hash is Some,
    ensures
        dep_contribution(dep, marker) == seq![
            HashInstructionView::TaskHash(marker, dep.hash->0),
        ],
        forall|i: int|
            0 <= i < dep_contribution(dep, marker).len() ==> dep_contribution(dep, marker)[i]
                is TaskHash,
{
}

/// A dependency with no hash and no declared outputs contributes nothing
/// of its own; that is not an error.
pub proof fn lemma_silent_dep_contribution(dep: TaskView, marker: Seq<char>)
    requires
        dep.hash is None,
        dep.outputs.len() == 0,
    ensures
        dep_contribution(dep, marker) == Seq::<HashInstructionView>::empty(),
{
}

/// The non-transitive instructions of a dependency list: each
/// dependency's own contribution, in declared order.
pub open spec fn contributions(
    g: GraphView,
    deps: Seq<Seq<char>>,
    marker: Seq<char>,
) -> Seq<HashInstructionView>
    decreases deps.len(),
{
    if deps.len() == 0 {
        Seq::empty()
    } else {
        dep_contribution(g.tasks[deps.first()], marker) + contributions(
            g,
            deps.drop_first(),
            marker,
        )
    }
}

/// Non-transitive resolution of a dependency list whose ids all have task
/// records succeeds and yields exactly the per-dependency contributions,
/// in order.
pub proof fn lemma_nontransitive_contributions(
    g: GraphView,
    deps: Seq<Seq<char>>,
    marker: Seq<char>,
    fuel: nat,
)
    requires
        forall|i: int| 0 <= i < deps.len() ==> g.tasks.contains_key(#[trigger] deps[i]),
    ensures
        resolve_deps_spec(g, deps, marker, false, fuel) == Ok::<
            Seq<HashInstructionView>,
            ResolveErrorView,
        >(contributions(g, deps, marker)),
    decreases deps.len(),
{
    if deps.len() > 0 {
        assert(forall|i: int|
            0 <= i < deps.drop_first().len() ==> #[trigger] deps.drop_first()[i] == deps[i + 1]);
        lemma_nontransitive_contributions(g, deps.drop_first(), marker, fuel);
        let own = dep_contribution(g.tasks[deps.first()], marker);
        let rest = contributions(g, deps.drop_first(), marker);
        assert(own + Seq::<HashInstructionView>::empty() + rest =~= own + rest);
    }
}

/// Reversing a dependency list reverses its non-transitive instruction
/// list: each dependency contributes at most one instruction, so the
/// per-dependency blocks reverse as units.
pub proof fn lemma_contributions_reverse(g: GraphView, deps: Seq<Seq<char>>, marker: Seq<char>)
    ensures
        contributions(g, deps.reverse(), marker) == contributions(g, deps, marker).reverse(),
    decreases deps.len(),
{
    if deps.len() == 0 {
        assert(deps.reverse() =~= deps);
        assert(contributions(g, deps, marker).reverse() =~= Seq::<HashInstructionView>::empty());
    } else {
        let first = deps.first();
        let rest = deps.drop_first();
        lemma_contributions_reverse(g, rest, marker);
        assert(deps.reverse() =~= rest.reverse() + seq![first]);
        lemma_contributions_concat(g, rest.reverse(), seq![first], marker);
        let own = dep_contribution(g.tasks[first], marker);
        let single = seq![first];
        assert(single.first() == first);
        assert(single.drop_first() =~= Seq::<Seq<char>>::empty());
        assert(contributions(g, single.drop_first(), marker) == Seq::<
            HashInstructionView,
        >::empty());
        assert(contributions(g, single, marker) == own + contributions(
            g,
            single.drop_first(),
            marker,
        ));
        assert(own + Seq::<HashInstructionView>::empty() =~= own);
        assert(own.reverse() =~= own);
        assert(contributions(g, deps, marker).reverse() =~= contributions(
            g,
            rest,
            marker,
        ).reverse() + own.reverse());
    }
}

/// Contributions distribute over concatenation of dependency lists.
pub proof fn lemma_contributions_concat(
    g: GraphView,
    a: Seq<Seq<char>>,
    b: Seq<Seq<char>>,
    marker: Seq<char>,
)
    ensures
        contributions(g, a + b, marker) == contributions(g, a, marker) + contributions(
            g,
            b,
            marker,
        ),
    decreases a.len(),
{
    if a.len() == 0 {
        assert(a + b =~= b);
        assert(contributions(g, a, marker) + contributions(g, b, marker) =~= contributions(
            g,
            b,
            marker,
        ));
    } else {
        assert((a + b).drop_first() =~= a.drop_first() + b);
        lemma_contributions_concat(g, a.drop_first(), b, marker);
        assert((a + b).first() == a.first());
        assert(dep_contribution(g.tasks[a.first()], marker) + (contributions(
            g,
            a.drop_first(),
            marker,
        ) + contributions(g, b, marker)) =~= contributions(g, a, marker) + contributions(
            g,
            b,
            marker,
        ));
    }
}

/// Reversing the declared dependency order of a task reverses the emitted
/// instruction list, under non-transitive resolution: `g2` is `g1` with
/// the one dependency list reversed.
pub proof fn lemma_order_sensitivity(
    g1: GraphView,
    g2: GraphView,
    id: Seq<char>,
    marker: Seq<char>,
    fuel1: nat,
    fuel2: nat,
)
    requires
        g1.tasks == g2.tasks,
        g1.dependencies.contains_key(id),
        g2.dependencies.contains_key(id),
        g2.dependencies[id] == g1.dependencies[id].reverse(),
        forall|i: int|
            0 <= i < g1.dependencies[id].len() ==> g1.tasks.contains_key(
                #[trigger] g1.dependencies[id][i],
            ),
        fuel1 >= 1,
        fuel2 >= 1,
    ensures
        ({
            let r1 = resolve_spec(g1, id, marker, false, fuel1);
            let r2 = resolve_spec(g2, id, marker, false, fuel2);
            r1 matches Ok(v) && (r2 matches Ok(w) && w == v.reverse())
        }),
{
    let deps = g1.dependencies[id];
    assert(forall|i: int|
        0 <= i < deps.reverse().len() ==> #[trigger] deps.reverse()[i] == deps[deps.len() - 1 - i]);
    lemma_nontransitive_contributions(g1, deps, marker, (fuel1 - 1) as nat);
    lemma_nontransitive_contributions(g2, deps.reverse(), marker, (fuel2 - 1) as nat);
    lemma_contributions_reverse(g1, deps, marker);
    assert(contributions(g2, deps.reverse(), marker) == contributions(g1, deps.reverse(), marker))
        by {
        lemma_contributions_same_tasks(g1, g2, deps.reverse(), marker);
    }
}

/// A contribution surfaces at whatever depth transitive resolution finds
/// it: over a chain from `a` through `b` to `c`, with `b` contributing
/// nothing of its own and `c` hashed, the result is exactly `c`'s hash
/// instruction — the contribution-free intermediate node is skipped, not
/// an error.
pub proof fn lemma_transitive_depth(
    g: GraphView,
    a: Seq<char>,
    b: Seq<char>,
    c: Seq<char>,
    h: Seq<char>,
    marker: Seq<char>,
    fuel: nat,
)
    requires
        g.dependencies.contains_key(a),
        g.dependencies[a] == seq![b],
        g.dependencies.contains_key(b),
        g.dependencies[b] == seq![c],
        !g.dependencies.contains_key(c),
        g.tasks.contains_key(b),
        g.tasks[b].hash is None,
        g.tasks[b].outputs.len() == 0,
        g.tasks.contains_key(c),
        g.tasks[c].hash == Some(h),
        fuel >= 3,
    ensures
        resolve_spec(g, a, marker, true, fuel) == Ok::<Seq<HashInstructionView>, ResolveErrorView>(
            seq![HashInstructionView::TaskHash(marker, h)],
        ),
{
    let hash_instr = seq![HashInstructionView::TaskHash(marker, h)];
    let f1 = (fuel - 1) as nat;
    let f2 = (fuel - 2) as nat;
    let just_c = seq![c];
    assert(just_c.first() == c);
    assert(just_c.drop_first() =~= Seq::<Seq<char>>::empty());
    assert(resolve_spec(g, c, marker, true, f2) == Ok::<
        Seq<HashInstructionView>,
        ResolveErrorView,
    >(Seq::empty()));
    assert(resolve_deps_spec(g, just_c.drop_first(), marker, true, f2) == Ok::<
        Seq<HashInstructionView>,
        ResolveErrorView,
    >(Seq::empty()));
    assert(dep_contribution(g.tasks[c], marker) == hash_instr);
    assert(hash_instr + Seq::<HashInstructionView>::empty() + Seq::<
        HashInstructionView,
    >::empty() =~= hash_instr);
    assert(resolve_deps_spec(g, just_c, marker, true, f2) == Ok::<
        Seq<HashInstructionView>,
        ResolveErrorView,
    >(hash_instr));
    assert(resolve_spec(g, b, marker, true, f1) == Ok::<Seq<HashInstructionView>, ResolveErrorView>(
        hash_instr,
    ));
    let just_b = seq![b];
    assert(just_b.first() == b);
    assert(just_b.drop_first() =~= Seq::<Seq<char>>::empty());
    assert(resolve_deps_spec(g, just_b.drop_first(), marker, true, f1) == Ok::<
        Seq<HashInstructionView>,
        ResolveErrorView,
    >(Seq::empty()));
    assert(dep_contribution(g.tasks[b], marker) == Seq::<HashInstructionView>::empty());
    assert(Seq::<HashInstructionView>::empty() + hash_instr + Seq::<
        HashInstructionView,
    >::empty() =~= hash_instr);
    assert(resolve_deps_spec(g, just_b, marker, true, f1) == Ok::<
        Seq<HashInstructionView>,
        ResolveErrorView,
    >(hash_instr));
    assert(resolve_spec(g, a, marker, true, fuel) == resolve_deps_spec(
        g,
        just_b,
        marker,
        true,
        f1,
    ));
}

/// Transitive resolution counts a dependency once per path, not once per
/// task: with both a direct edge from `a` to `c` and an indirect path
/// through `b`, the hash of `c` is emitted twice. Duplication over
/// diamond-shaped graphs is the resolver's documented behavior, not
/// deduplicated away.
pub proof fn lemma_diamond_duplication(
    g: GraphView,
    a: Seq<char>,
    b: Seq<char>,
    c: Seq<char>,
    h: Seq<char>,
    marker: Seq<char>,
    fuel: nat,
)
    requires
        g.dependencies.contains_key(a),
        g.dependencies[a] == seq![b, c],
        g.dependencies.contains_key(b),
        g.dependencies[b] == seq![c],
        !g.dependencies.contains_key(c),
        g.tasks.contains_key(b),
        g.tasks[b].hash is None,
        g.tasks[b].outputs.len() == 0,
        g.tasks.contains_key(c),
        g.tasks[c].hash == Some(h),
        fuel >= 3,
    ensures
        resolve_spec(g, a, marker, true, fuel) == Ok::<Seq<HashInstructionView>, ResolveErrorView>(
            seq![
                HashInstructionView::TaskHash(marker, h),
                HashInstructionView::TaskHash(marker, h),
            ],
        ),
{
    let hash_instr = seq![HashInstructionView::TaskHash(marker, h)];
    assert forall|f: nat| f >= 1 implies resolve_deps_spec(g, seq![c], marker, true, f) == Ok::<
        Seq<HashInstructionView>,
        ResolveErrorView,
    >(hash_instr) by {
        let single = seq![c];
        assert(single.first() == c);
        assert(single.drop_first() =~= Seq::<Seq<char>>::empty());
        assert(resolve_spec(g, c, marker, true, f) == Ok::<
            Seq<HashInstructionView>,
            ResolveErrorView,
        >(Seq::empty()));
        assert(resolve_deps_spec(g, single.drop_first(), marker, true, f) == Ok::<
            Seq<HashInstructionView>,
            ResolveErrorView,
        >(Seq::empty()));
        assert(dep_contribution(g.tasks[c], marker) == hash_instr);
        assert(hash_instr + Seq::<HashInstructionView>::empty() + Seq::<
            HashInstructionView,
        >::empty() =~= hash_instr);
    }
    let f1 = (fuel - 1) as nat;
    let f2 = (fuel - 2) as nat;
    assert(resolve_spec(g, b, marker, true, f1) == resolve_deps_spec(g, seq![c], marker, true, f2));
    assert(resolve_spec(g, b, marker, true, f1) == Ok::<Seq<HashInstructionView>, ResolveErrorView>(
        hash_instr,
    ));
    let pair = seq![b, c];
    assert(pair.first() == b);
    assert(pair.drop_first() =~= seq![c]);
    assert(dep_contribution(g.tasks[b], marker) == Seq::<HashInstructionView>::empty());
    assert(resolve_deps_spec(g, seq![c], marker, true, f1) == Ok::<
        Seq<HashInstructionView>,
        ResolveErrorView,
    >(hash_instr));
    assert(resolve_deps_spec(g, pair, marker, true, f1) == Ok::<
        Seq<HashInstructionView>,
        ResolveErrorView,
    >(
        Seq::<HashInstructionView>::empty() + hash_instr + hash_instr,
    ));
    assert(Seq::<HashInstructionView>::empty() + hash_instr + hash_instr =~= seq![
        HashInstructionView::TaskHash(marker, h),
        HashInstructionView::TaskHash(marker, h),
    ]);
    assert(resolve_spec(g, a, marker, true, fuel) == resolve_deps_spec(g, pair, marker, true, f1));
}

/// Contributions depend only on the task map, not the dependency map.
proof fn lemma_contributions_same_tasks(
    g1: GraphView,
    g2: GraphView,
    deps: Seq<Seq<char>>,
    marker: Seq<char>,
)
    requires
        g1.tasks == g2.tasks,
    ensures
        contributions(g1, deps, marker) == contributions(g2, deps, marker),
    decreases deps.len(),
{
    if deps.len() > 0 {
        lemma_contributions_same_tasks(g1, g2, deps.drop_first(), marker);
    }
}

/// The instruction views of an instruction list.
pub open spec fn instrs_view(v: Seq<HashInstruction>) -> Seq<HashInstructionView> {
    v.map_values(|x: HashInstruction| x@)
}

fn resolve_rec(
    id: &String,
    task_graph: &TaskGraph,
    marker: &str,
    transitive: bool,
    fuel: usize,
) -> (r: Result<Vec<HashInstruction>, ResolveError>)
    requires
        task_graph.wf(),
    ensures
        match r {
            Ok(v) => resolve_spec(task_graph@, id@, marker@, transitive, fuel as nat)
                == Ok::<Seq<HashInstructionView>, ResolveErrorView>(instrs_view(v@)),
            Err(e) => resolve_spec(task_graph@, id@, marker@, transitive, fuel as nat)
                == Err::<Seq<HashInstructionView>, ResolveErrorView>(e@),
        },
    decreases fuel,
{
    let ghost g = task_graph@;
    let deps = match find_deps(&task_graph.dependencies, id) {
        None => {
            let empty_out: Vec<HashInstruction> = Vec::new();
            proof {
                assert(instrs_view(empty_out@) =~= Seq::<HashInstructionView>::empty());
                assert(resolve_spec(g, id@, marker@, transitive, fuel as nat) == Ok::<
                    Seq<HashInstructionView>,
                    ResolveErrorView,
                >(Seq::empty()));
            }
            return Ok(empty_out);
        },
        Some(d) => d,
    };
    if fuel == 0 {
        return Err(ResolveError::DepthExceeded);
    }
    let ghost dv = deps.deep_view();
    let ghost f1 = (fuel - 1) as nat;
    let mut out: Vec<HashInstruction> = Vec::new();
    proof {
        assert(dv.skip(0) =~= dv);
        assert(instrs_view(out@) =~= Seq::<HashInstructionView>::empty());
        if let Ok(rest) = resolve_deps_spec(g, dv, marker@, transitive, f1) {
            assert(instrs_view(out@) + rest =~= rest);
        }
    }
    let n = deps.len();
    let mut i: usize = 0;
    while i < n
        invariant
            task_graph.wf(),
            g == task_graph@,
            i <= n,
            n == deps@.len(),
            dv == deps.deep_view(),
            g.dependencies.contains_key(id@),
            g.dependencies[id@] == dv,
            fuel >= 1,
            f1 == (fuel - 1) as nat,
            match resolve_deps_spec(g, dv.skip(i as int), marker@, transitive, f1) {
                Ok(rest) => resolve_deps_spec(g, dv, marker@, transitive, f1) == Ok::<
                    Seq<HashInstructionView>,
                    ResolveErrorView,
                >(instrs_view(out@) + rest),
                Err(e) => resolve_deps_spec(g, dv, marker@, transitive, f1) == Err::<
                    Seq<HashInstructionView>,
                    ResolveErrorView,
                >(e),
            },
        decreases n - i,
    {
        let ghost remaining = dv.skip(i as int);
        proof {
            assert(remaining.len() > 0);
            assert(remaining.first() == dv[i as int]);
            assert(dv[i as int] == deps@[i as int]@);
        }
        let dep_id: &String = &deps[i];
        let child = match find_task(&task_graph.tasks, dep_id) {
            None => {
                proof {
                    assert(resolve_deps_spec(g, remaining, marker@, transitive, f1)
                        == Err::<Seq<HashInstructionView>, ResolveErrorView>(
                        ResolveErrorView::MissingTask(dep_id@),
                    ));
                }
                return Err(ResolveError::MissingTask(dep_id.clone()));
            },
            Some(c) => c,
        };
        let ghost out_before = instrs_view(out@);
        let ghost own = dep_contribution(g.tasks[dep_id@], marker@);
        match &child.hash {
            Some(h) => {
                out.push(HashInstruction::TaskHash(marker.to_owned(), h.clone()));
                proof {
                    assert(instrs_view(out@) =~= out_before + own);
                }
            },
            None => {
                if child.outputs.len() > 0 {
                    out.push(HashInstruction::TaskOutput(marker.to_owned(), vec_clone(&child.outputs)));
                    proof {
                        assert(instrs_view(out@) =~= out_before + own);
                    }
                } else {
                    proof {
                        assert(instrs_view(out@) =~= out_before + own);
                    }
                }
            },
        }
        let ghost below = if transitive {
            resolve_spec(g, dep_id@, marker@, transitive, f1)
        } else {
            Ok::<Seq<HashInstructionView>, ResolveErrorView>(Seq::empty())
        };
        if transitive {
            match resolve_rec(&child.id, task_graph, marker, transitive, fuel - 1) {
                Ok(mut sub) => {
                    let ghost out_mid = instrs_view(out@);
                    let ghost sub_view = instrs_view(sub@);
                    out.append(&mut sub);
                    proof {
                        assert(below == Ok::<Seq<HashInstructionView>, ResolveErrorView>(sub_view));
                        assert(instrs_view(out@) =~= out_mid + sub_view);
                    }
                },
                Err(e) => {
                    proof {
                        assert(below == Err::<Seq<HashInstructionView>, ResolveErrorView>(e@));
                        assert(resolve_deps_spec(g, remaining, marker@, transitive, f1) == Err::<
                            Seq<HashInstructionView>,
                            ResolveErrorView,
                        >(e@));
                    }
                    return Err(e);
                },
            }
        }
        proof {
            let next = dv.skip(i as int + 1);
            assert(remaining.drop_first() =~= next);
            let subv = match below {
                Ok(s) => s,
                Err(_) => Seq::<HashInstructionView>::empty(),
            };
            assert(below == Ok::<Seq<HashInstructionView>, ResolveErrorView>(subv));
            assert(instrs_view(out@) =~= out_before + own + subv);
            match resolve_deps_spec(g, next, marker@, transitive, f1) {
                Err(e2) => {
                    assert(resolve_deps_spec(g, remaining, marker@, transitive, f1) == Err::<
                        Seq<HashInstructionView>,
                        ResolveErrorView,
                    >(e2));
                },
                Ok(rest2) => {
                    assert(resolve_deps_spec(g, remaining, marker@, transitive, f1) == Ok::<
                        Seq<HashInstructionView>,
                        ResolveErrorView,
                    >(own + subv + rest2));
                    assert(instrs_view(out@) + rest2 =~= out_before + (own + subv + rest2));
                },
            }
        }
        i += 1;
    }
    proof {
        assert(dv.skip(n as int) =~= Seq::<Seq<char>>::empty());
        assert(resolve_deps_spec(g, dv.skip(n as int), marker@, transitive, f1) == Ok::<
            Seq<HashInstructionView>,
            ResolveErrorView,
        >(Seq::<HashInstructionView>::empty()));
        assert(instrs_view(out@) + Seq::<HashInstructionView>::empty() =~= instrs_view(out@));
        assert(resolve_spec(g, id@, marker@, transitive, fuel as nat) == resolve_deps_spec(
            g,
            dv,
            marker@,
            transitive,
            f1,
        ));
    }
    Ok(out)
}

/// A field-for-field copy of a string list.
fn vec_clone(v: &Vec<String>) -> (r: Vec<String>)
    ensures
        r@ == v@,
{
    let mut r: Vec<String> = Vec::new();
    let mut i: usize = 0;
    while i < v.len()
        invariant
            i <= v@.len(),
            r@ == v@.subrange(0, i as int),
        decreases v@.len() - i,
    {
        r.push(v[i].clone());
        proof {
            assert(r@ =~= v@.subrange(0, i + 1 as int));
        }
        i += 1;
    }
    proof {
        assert(v@.subrange(0, v@.len() as int) =~= v@);
    }
    r
}

/// The ordered hash instructions that `task`'s dependencies contribute to
/// its cache key, per [`resolve_spec`]: for each dependency in declared
/// order, its precomputed hash when present, else its declared output
/// patterns when any, else nothing; expanded through the whole dependency
/// closure when `transitive`. The one failure is a dependency id with no
/// task record — a broken graph invariant upstream — carried to the caller
/// with the offending id; a cyclic graph, which the graph construction
/// stage is assumed to rule out, is caught by the depth guard instead of
/// overflowing the stack.
pub fn get_dep_output(
    task: &Task,
    task_graph: &TaskGraph,
    dependent_tasks_output_files: &str,
    transitive: bool,
) -> (r: Result<Vec<HashInstruction>, ResolveError>)
    requires
        task_graph.wf(),
        task_graph.tasks@.len() < usize::MAX,
    ensures
        match r {
            Ok(v) => resolve_spec(
                task_graph@,
                task@.id,
                dependent_tasks_output_files@,
                transitive,
                (task_graph.tasks@.len() + 1) as nat,
            ) == Ok::<Seq<HashInstructionView>, ResolveErrorView>(instrs_view(v@)),
            Err(e) => resolve_spec(
                task_graph@,
                task@.id,
                dependent_tasks_output_files@,
                transitive,
                (task_graph.tasks@.len() + 1) as nat,
            ) == Err::<Seq<HashInstructionView>, ResolveErrorView>(e@),
        },
        !task_graph@.dependencies.contains_key(task@.id) ==> (r matches Ok(v) && v@.len() == 0),
{
    let fuel = task_graph.tasks.len() + 1;
    let r = resolve_rec(&task.id, task_graph, dependent_tasks_output_files, transitive, fuel);
    proof {
        if !task_graph@.dependencies.contains_key(task@.id) {
            assert(resolve_spec(
                task_graph@,
                task@.id,
                dependent_tasks_output_files@,
                transitive,
                fuel as nat,
            ) == Ok::<Seq<HashInstructionView>, ResolveErrorView>(Seq::empty()));
            if let Ok(v) = &r {
                assert(instrs_view(v@) =~= Seq::<HashInstructionView>::empty() ==> v@.len() == 0);
            }
        }
    }
    r
}

} // verus!

