use task_hashing::types::{DependencyEntry, HashInstruction, ResolveError, Task, TaskGraph};
use task_hashing::dep_outputs::get_dep_output;

fn s(x: &str) -> String {
    x.to_string()
}

fn task(id: &str, hash: Option<&str>, outputs: &[&str]) -> Task {
    Task {
        id: s(id),
        hash: hash.map(s),
        outputs: outputs.iter().map(|o| s(o)).collect(),
    }
}

fn entry(id: &str, deps: &[&str]) -> DependencyEntry {
    DependencyEntry { id: s(id), deps: deps.iter().map(|d| s(d)).collect() }
}

#[test]
fn no_dependency_entry_yields_empty_list() {
    let a = task("a", None, &[]);
    let graph = TaskGraph { tasks: vec![task("b", Some("hb"), &[])], dependencies: vec![] };
    let r = get_dep_output(&a, &graph, "deps", false).unwrap();
    assert_eq!(r, vec![]);
}

#[test]
fn hashed_dependency_emits_one_task_hash_even_with_outputs() {
    let a = task("a", None, &[]);
    let graph = TaskGraph {
        tasks: vec![task("b", Some("hb"), &["dist/b", "build/b"])],
        dependencies: vec![entry("a", &["b"])],
    };
    let r = get_dep_output(&a, &graph, "m", false).unwrap();
    assert_eq!(r, vec![HashInstruction::TaskHash(s("m"), s("hb"))]);
}

#[test]
fn unhashed_dependency_with_outputs_emits_task_output() {
    let a = task("a", None, &[]);
    let graph = TaskGraph {
        tasks: vec![task("b", None, &["dist/b"])],
        dependencies: vec![entry("a", &["b"])],
    };
    let r = get_dep_output(&a, &graph, "m", false).unwrap();
    assert_eq!(r, vec![HashInstruction::TaskOutput(s("m"), vec![s("dist/b")])]);
}

#[test]
fn dependency_with_no_hash_and_no_outputs_emits_nothing() {
    let a = task("a", None, &[]);
    let graph = TaskGraph {
        tasks: vec![task("b", None, &[])],
        dependencies: vec![entry("a", &["b"])],
    };
    let r = get_dep_output(&a, &graph, "m", false).unwrap();
    assert_eq!(r, vec![]);
}

#[test]
fn non_transitive_pair_in_declared_order() {
    let a = task("a", None, &[]);
    let graph = TaskGraph {
        tasks: vec![task("b", Some("h_b"), &[]), task("c", None, &["dist/c"])],
        dependencies: vec![entry("a", &["b", "c"])],
    };
    let r = get_dep_output(&a, &graph, "marker", false).unwrap();
    assert_eq!(
        r,
        vec![
            HashInstruction::TaskHash(s("marker"), s("h_b")),
            HashInstruction::TaskOutput(s("marker"), vec![s("dist/c")]),
        ]
    );
}

#[test]
fn transitive_contribution_surfaces_at_depth() {
    let a = task("a", None, &[]);
    let graph = TaskGraph {
        tasks: vec![task("b", None, &[]), task("c", Some("h_c"), &[])],
        dependencies: vec![entry("a", &["b"]), entry("b", &["c"])],
    };
    let r = get_dep_output(&a, &graph, "marker", true).unwrap();
    assert_eq!(r, vec![HashInstruction::TaskHash(s("marker"), s("h_c"))]);
}

#[test]
fn non_transitive_stops_at_direct_dependencies() {
    let a = task("a", None, &[]);
    let graph = TaskGraph {
        tasks: vec![task("b", None, &[]), task("c", Some("h_c"), &[])],
        dependencies: vec![entry("a", &["b"]), entry("b", &["c"])],
    };
    let r = get_dep_output(&a, &graph, "marker", false).unwrap();
    assert_eq!(r, vec![]);
}

#[test]
fn diamond_counts_once_per_path() {
    let a = task("a", None, &[]);
    let graph = TaskGraph {
        tasks: vec![task("b", None, &[]), task("c", Some("h_c"), &[])],
        dependencies: vec![entry("a", &["b", "c"]), entry("b", &["c"])],
    };
    let r = get_dep_output(&a, &graph, "m", true).unwrap();
    assert_eq!(
        r,
        vec![
            HashInstruction::TaskHash(s("m"), s("h_c")),
            HashInstruction::TaskHash(s("m"), s("h_c")),
        ]
    );
}

#[test]
fn reversed_dependency_order_reverses_instructions() {
    let a = task("a", None, &[]);
    let tasks = || {
        vec![
            task("b", Some("h_b"), &[]),
            task("c", None, &["dist/c"]),
            task("d", Some("h_d"), &[]),
        ]
    };
    let forward = TaskGraph { tasks: tasks(), dependencies: vec![entry("a", &["b", "c", "d"])] };
    let backward = TaskGraph { tasks: tasks(), dependencies: vec![entry("a", &["d", "c", "b"])] };
    let mut fwd = get_dep_output(&a, &forward, "m", false).unwrap();
    let bwd = get_dep_output(&a, &backward, "m", false).unwrap();
    fwd.reverse();
    assert_eq!(fwd, bwd);
}

#[test]
fn missing_task_record_is_reported_with_its_id() {
    let a = task("a", None, &[]);
    let graph = TaskGraph {
        tasks: vec![task("b", Some("hb"), &[])],
        dependencies: vec![entry("a", &["b", "ghost-task"])],
    };
    let e = get_dep_output(&a, &graph, "m", false).unwrap_err();
    assert_eq!(e, ResolveError::MissingTask(s("ghost-task")));
}

#[test]
fn cyclic_graph_is_caught_by_the_depth_guard() {
    let a = task("a", None, &[]);
    let graph = TaskGraph {
        tasks: vec![task("a", None, &["out/a"]), task("b", None, &["out/b"])],
        dependencies: vec![entry("a", &["b"]), entry("b", &["a"])],
    };
    let e = get_dep_output(&a, &graph, "m", true).unwrap_err();
    assert_eq!(e, ResolveError::DepthExceeded);
}

#[test]
fn marker_is_carried_through_unchanged() {
    let a = task("a", None, &[]);
    let graph = TaskGraph {
        tasks: vec![task("b", Some("hb"), &[])],
        dependencies: vec![entry("a", &["b"])],
    };
    let r = get_dep_output(&a, &graph, "dependentTasksOutputFiles", false).unwrap();
    match &r[0] {
        HashInstruction::TaskHash(marker, _) => assert_eq!(marker, "dependentTasksOutputFiles"),
        other => panic!("unexpected instruction {:?}", other),
    }
}
