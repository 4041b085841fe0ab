use task_hashing::inputs::{
    DependentTasksFilter, DependentTasksInput, DepsOutputsInput, EnvironmentInput,
    ExternalDependenciesInput, FileSetInput, Input, InputDeclaration, InputsInput, ProjectList,
    RuntimeInput, WorkingDirectoryInput,
};

fn s(x: &str) -> String {
    x.to_string()
}

#[test]
fn caret_string_is_sugar_for_transitive_input_group() {
    let from_string = Input::normalize(InputDeclaration::String(s("^build")));
    let from_struct = Input::normalize(InputDeclaration::Inputs(InputsInput {
        input: s("build"),
        dependencies: Some(true),
        projects: None,
    }));
    assert_eq!(from_string, from_struct);
    assert_eq!(from_string, Input::Inputs { input: s("build"), dependencies: true });
}

#[test]
fn plain_string_stays_a_string() {
    let r = Input::normalize(InputDeclaration::String(s("src/**/*.ts")));
    assert_eq!(r, Input::String(s("src/**/*.ts")));
}

#[test]
fn empty_string_stays_a_string() {
    let r = Input::normalize(InputDeclaration::String(s("")));
    assert_eq!(r, Input::String(s("")));
}

#[test]
fn projects_takes_priority_over_dependencies() {
    let r = Input::normalize(InputDeclaration::Inputs(InputsInput {
        input: s("build"),
        dependencies: Some(true),
        projects: Some(ProjectList::Many(vec![s("p1")])),
    }));
    assert_eq!(r, Input::Projects { projects: vec![s("p1")], input: s("build") });
}

#[test]
fn single_project_reads_as_one_element_list() {
    let r = Input::normalize(InputDeclaration::Inputs(InputsInput {
        input: s("build"),
        dependencies: None,
        projects: Some(ProjectList::Single(s("app"))),
    }));
    assert_eq!(r, Input::Projects { projects: vec![s("app")], input: s("build") });
}

#[test]
fn absent_dependencies_flag_defaults_to_false() {
    let r = Input::normalize(InputDeclaration::Inputs(InputsInput {
        input: s("default"),
        dependencies: None,
        projects: None,
    }));
    assert_eq!(r, Input::Inputs { input: s("default"), dependencies: false });
}

#[test]
fn explicit_dependencies_flag_is_kept() {
    let r = Input::normalize(InputDeclaration::Inputs(InputsInput {
        input: s("default"),
        dependencies: Some(true),
        projects: None,
    }));
    assert_eq!(r, Input::Inputs { input: s("default"), dependencies: true });
}

#[test]
fn dependent_tasks_booleans_both_mean_all_targets() {
    let of_flag = |b: bool| {
        Input::normalize(InputDeclaration::DependentTasks(DependentTasksInput {
            dependent_tasks: DependentTasksFilter::Flag(b),
        }))
    };
    assert_eq!(of_flag(true), Input::DependentTasks { targets: vec![] });
    assert_eq!(of_flag(false), Input::DependentTasks { targets: vec![] });
}

#[test]
fn dependent_tasks_list_narrows_the_filter() {
    let r = Input::normalize(InputDeclaration::DependentTasks(DependentTasksInput {
        dependent_tasks: DependentTasksFilter::List(vec![s("build"), s("^test")]),
    }));
    assert_eq!(r, Input::DependentTasks { targets: vec![s("build"), s("^test")] });
}

#[test]
fn file_set_maps_one_to_one() {
    let r = Input::normalize(InputDeclaration::FileSet(FileSetInput { fileset: s("prod") }));
    assert_eq!(r, Input::FileSet(s("prod")));
}

#[test]
fn runtime_maps_one_to_one() {
    let r = Input::normalize(InputDeclaration::Runtime(RuntimeInput { runtime: s("node -v") }));
    assert_eq!(r, Input::Runtime(s("node -v")));
}

#[test]
fn environment_maps_one_to_one() {
    let r = Input::normalize(InputDeclaration::Environment(EnvironmentInput { env: s("CI") }));
    assert_eq!(r, Input::Environment(s("CI")));
}

#[test]
fn external_dependencies_map_one_to_one() {
    let r = Input::normalize(InputDeclaration::ExternalDependencies(ExternalDependenciesInput {
        external_dependencies: vec![s("typescript"), s("webpack")],
    }));
    assert_eq!(r, Input::ExternalDependency(vec![s("typescript"), s("webpack")]));
}

#[test]
fn deps_outputs_transitive_defaults_to_false() {
    let r = Input::normalize(InputDeclaration::DepsOutputs(DepsOutputsInput {
        dependent_tasks_output_files: s("dist/**"),
        transitive: None,
    }));
    assert_eq!(
        r,
        Input::DepsOutputs { dependent_tasks_output_files: s("dist/**"), transitive: false }
    );
}

#[test]
fn deps_outputs_explicit_transitive_is_kept() {
    let r = Input::normalize(InputDeclaration::DepsOutputs(DepsOutputsInput {
        dependent_tasks_output_files: s("dist/**"),
        transitive: Some(true),
    }));
    assert_eq!(
        r,
        Input::DepsOutputs { dependent_tasks_output_files: s("dist/**"), transitive: true }
    );
}

#[test]
fn working_directory_maps_one_to_one() {
    let r = Input::normalize(InputDeclaration::WorkingDirectory(WorkingDirectoryInput {
        working_directory: s("apps/web"),
    }));
    assert_eq!(r, Input::WorkingDirectory(s("apps/web")));
}

#[test]
fn caret_only_string_names_the_empty_group() {
    let r = Input::normalize(InputDeclaration::String(s("^")));
    assert_eq!(r, Input::Inputs { input: s(""), dependencies: true });
}
